use vstd::prelude::*;

verus! {

/// The case modes a translation can switch to.
#[derive(Clone, Copy, Debug, PartialEq, Eq, Structural)]
pub enum Case {
    Sentence,
    Lower,
    Upper,
    Title,
    Camel,
    Snake,
}

/// How a paragraph break is styled: plain, or as an indented continuation.
#[derive(Clone, Copy, Debug, PartialEq, Eq, Structural)]
pub enum ParagraphMode {
    Default,
    Contin,
}

/// One formatting directive or run of literal text of a translation.
#[derive(Clone, Debug, PartialEq, Eq)]
pub enum Object {
    Cancel,
    Noop,
    DeleteStroke,
    RepeatLastStroke,
    RetroToggleStar,
    RetroInsertSpace,
    RetroDeleteSpace,
    Space,
    HardSpace,
    Paragraph(ParagraphMode),
    RawString(String),
    Fingerspell(String),
    Stitch(String),
    Command(String, Option<String>),
    Meta(String, Option<String>),
    Macro(String, Option<String>),
    Currency(Option<String>, Option<String>),
    Punctuation(String),
    KeyCombo(String),
    ResetCaseAndSpace,
    CaseMode(Case),
    SpaceMode(Option<String>),
    AttachRaw,
    OrthoAttach,
    AttachPrefix(String),
    AttachSuffix(String),
    AttachInfix(String),
    CarryCapRaw(String),
    CarryCapPrefix(String),
    CarryCapSuffix(String),
    CarryCapInfix(String),
    ForceCapitalize,
    ForceLowercase,
    RetroForceCapitalize,
    RetroForceLowercase,
    ForceCapitalizeWord,
    RetroForceCapitalizeWord,
}

/// The mathematical value of an `Object`: the same directive, with its text
/// payloads as character sequences.
pub enum Directive {
    Cancel,
    Noop,
    DeleteStroke,
    RepeatLastStroke,
    RetroToggleStar,
    RetroInsertSpace,
    RetroDeleteSpace,
    Space,
    HardSpace,
    Paragraph(ParagraphMode),
    RawString(Seq<char>),
    Fingerspell(Seq<char>),
    Stitch(Seq<char>),
    Command(Seq<char>, Option<Seq<char>>),
    Meta(Seq<char>, Option<Seq<char>>),
    Macro(Seq<char>, Option<Seq<char>>),
    Currency(Option<Seq<char>>, Option<Seq<char>>),
    Punctuation(Seq<char>),
    KeyCombo(Seq<char>),
    ResetCaseAndSpace,
    CaseMode(Case),
    SpaceMode(Option<Seq<char>>),
    AttachRaw,
    OrthoAttach,
    AttachPrefix(Seq<char>),
    AttachSuffix(Seq<char>),
    AttachInfix(Seq<char>),
    CarryCapRaw(Seq<char>),
    CarryCapPrefix(Seq<char>),
    CarryCapSuffix(Seq<char>),
    CarryCapInfix(Seq<char>),
    ForceCapitalize,
    ForceLowercase,
    RetroForceCapitalize,
    RetroForceLowercase,
    ForceCapitalizeWord,
    RetroForceCapitalizeWord,
}

pub open spec fn opt_view(o: Option<String>) -> Option<Seq<char>> {
    match o {
        Some(s) => Some(s@),
        None => None,
    }
}

impl View for Object {
    type V = Directive;

    open spec fn view(&self) -> Directive {
        match self {
            Object::Cancel => Directive::Cancel,
            Object::Noop => Directive::Noop,
            Object::DeleteStroke => Directive::DeleteStroke,
            Object::RepeatLastStroke => Directive::RepeatLastStroke,
            Object::RetroToggleStar => Directive::RetroToggleStar,
            Object::RetroInsertSpace => Directive::RetroInsertSpace,
            Object::RetroDeleteSpace => Directive::RetroDeleteSpace,
            Object::Space => Directive::Space,
            Object::HardSpace => Directive::HardSpace,
            Object::Paragraph(m) => Directive::Paragraph(*m),
            Object::RawString(s) => Directive::RawString(s@),
            Object::Fingerspell(s) => Directive::Fingerspell(s@),
            Object::Stitch(s) => Directive::Stitch(s@),
            Object::Command(n, a) => Directive::Command(n@, opt_view(*a)),
            Object::Meta(n, a) => Directive::Meta(n@, opt_view(*a)),
            Object::Macro(n, a) => Directive::Macro(n@, opt_view(*a)),
            Object::Currency(l, r) => Directive::Currency(opt_view(*l), opt_view(*r)),
            Object::Punctuation(s) => Directive::Punctuation(s@),
            Object::KeyCombo(s) => Directive::KeyCombo(s@),
            Object::ResetCaseAndSpace => Directive::ResetCaseAndSpace,
            Object::CaseMode(c) => Directive::CaseMode(*c),
            Object::SpaceMode(s) => Directive::SpaceMode(opt_view(*s)),
            Object::AttachRaw => Directive::AttachRaw,
            Object::OrthoAttach => Directive::OrthoAttach,
            Object::AttachPrefix(s) => Directive::AttachPrefix(s@),
            Object::AttachSuffix(s) => Directive::AttachSuffix(s@),
            Object::AttachInfix(s) => Directive::AttachInfix(s@),
            Object::CarryCapRaw(s) => Directive::CarryCapRaw(s@),
            Object::CarryCapPrefix(s) => Directive::CarryCapPrefix(s@),
            Object::CarryCapSuffix(s) => Directive::CarryCapSuffix(s@),
            Object::CarryCapInfix(s) => Directive::CarryCapInfix(s@),
            Object::ForceCapitalize => Directive::ForceCapitalize,
            Object::ForceLowercase => Directive::ForceLowercase,
            Object::RetroForceCapitalize => Directive::RetroForceCapitalize,
            Object::RetroForceLowercase => Directive::RetroForceLowercase,
            Object::ForceCapitalizeWord => Directive::ForceCapitalizeWord,
            Object::RetroForceCapitalizeWord => Directive::RetroForceCapitalizeWord,
        }
    }
}

pub open spec fn opt_obj(o: Option<Object>) -> Option<Directive> {
    match o {
        Some(x) => Some(x@),
        None => None,
    }
}

/// The values of a sequence of objects.
pub open spec fn views(v: Seq<Object>) -> Seq<Directive> {
    v.map_values(|o: Object| o@)
}

} // verus!
