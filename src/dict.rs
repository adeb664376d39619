use vstd::prelude::*;

use crate::model::opt_view;
use crate::text::chars_of;
use crate::plover::{format_plover_to_rtf, parse_plover, rtf_text};

verus! {

/// What is known of an entry besides its outline and translation.
#[derive(PartialEq, Eq, Hash, Clone, Debug)]
pub struct EntryMetadata {
    pub comment: Option<String>,
}

/// One dictionary entry: a steno outline, its Plover translation, and an
/// optional comment.
#[derive(PartialEq, Eq, Hash, Clone, Debug)]
pub struct Entry {
    pub steno: String,
    pub translation: String,
    pub metadata: Option<EntryMetadata>,
}

pub open spec fn opt_str(o: Option<&str>) -> Option<Seq<char>> {
    match o {
        Some(s) => Some(s@),
        None => None,
    }
}

/// How an entry is written in an RTF dictionary: the outline in a `\cxs`
/// group, the translation rendered as RTF, the comment in a `\cxcomment`
/// group when there is one, and a line break.
pub open spec fn entry_rtf(steno: Seq<char>, translation: Seq<char>, comment: Option<Seq<char>>) -> Seq<
    char,
> {
    "{\\*\\cxs "@ + steno + "}"@ + rtf_text(parse_plover(translation)) + match comment {
        Some(c) => "{\\*\\cxcomment "@ + c + "}"@,
        None => Seq::empty(),
    } + "\n"@
}

/// The value of an entry: its outline, translation and comment.
pub struct EntryView {
    pub steno: Seq<char>,
    pub translation: Seq<char>,
    pub comment: Option<Seq<char>>,
}

impl View for Entry {
    type V = EntryView;

    open spec fn view(&self) -> EntryView {
        EntryView {
            steno: self.steno@,
            translation: self.translation@,
            comment: match self.metadata {
                Some(m) => opt_view(m.comment),
                None => None,
            },
        }
    }
}

impl Entry {
    pub fn new(steno: &str, translation: &str, comment: Option<&str>) -> (r: Self)
        ensures
            r@ == (EntryView { steno: steno@, translation: translation@, comment: opt_str(comment) }),
    {
        Entry {
            steno: steno.to_owned(),
            translation: translation.to_owned(),
            metadata: match comment {
                Some(c) => Some(EntryMetadata { comment: Some(c.to_owned()) }),
                None => None,
            },
        }
    }

    pub fn comment(&self) -> (r: Option<String>)
        ensures
            opt_view(r) == self@.comment,
    {
        match &self.metadata {
            Some(m) => match &m.comment {
                Some(c) => Some(c.clone()),
                None => None,
            },
            None => None,
        }
    }

    /// Appends the entry, as an RTF dictionary writes it, to `out`.
    pub fn write(&self, out: &mut String)
        ensures
            final(out)@ == old(out)@ + entry_rtf(self@.steno, self@.translation, self@.comment),
    {
        let ghost start = out@;
        out.append("{\\*\\cxs ");
        out.append(self.steno.as_str());
        out.append("}");
        let body = format_plover_to_rtf(self.translation.as_str());
        out.append(body.as_str());
        match &self.metadata {
            Some(m) => match &m.comment {
                Some(c) => {
                    out.append("{\\*\\cxcomment ");
                    out.append(c.as_str());
                    out.append("}");
                },
                None => {},
            },
            None => {},
        }
        out.append("\n");
        assert(out@ =~= start + entry_rtf(self@.steno, self@.translation, self@.comment));
    }
}

} // verus!

verus! {

/// The ordered map of linked-hash-map, which keeps its pairs in order of
/// insertion; Verus sees nothing inside it.
#[verifier::external_type_specification]
#[verifier::external_body]
#[verifier::reject_recursive_types(K)]
#[verifier::reject_recursive_types(V)]
#[verifier::reject_recursive_types(S)]
pub struct ExLinkedHashMap<K, V, S>(linked_hash_map::LinkedHashMap<K, V, S>);

/// What a map of entries holds, in order of insertion: each outline with
/// its entry.
pub uninterp spec fn entries_of(m: linked_hash_map::LinkedHashMap<String, Entry>) -> Seq<(Seq<char>, EntryView)>;

/// Relies on `LinkedHashMap::new`: an empty map.
#[verifier::external_body]
fn map_new() -> (r: linked_hash_map::LinkedHashMap<String, Entry>)
    ensures
        entries_of(r) == Seq::<(Seq<char>, EntryView)>::empty(),
{
    linked_hash_map::LinkedHashMap::new()
}

/// Relies on `LinkedHashMap::insert`: the value under `k` is replaced, or
/// added, and either way the pair moves to the end of the order.
#[verifier::external_body]
fn map_insert(m: &mut linked_hash_map::LinkedHashMap<String, Entry>, k: String, v: Entry)
    ensures
        entries_of(*final(m)) == without(entries_of(*old(m)), k@).push((k@, v@)),
{
    m.insert(k, v);
}

/// Relies on `LinkedHashMap::get_mut`: the value under `k` is replaced where
/// it stands, and the order of the pairs is kept.
#[verifier::external_body]
fn map_replace(m: &mut linked_hash_map::LinkedHashMap<String, Entry>, k: &str, v: Entry)
    requires
        lookup(entries_of(*old(m)), k@) is Some,
    ensures
        entries_of(*final(m)) == entries_of(*old(m)).update(
            index_of(entries_of(*old(m)), k@),
            (k@, v@),
        ),
{
    match m.get_mut(k) {
        Some(e) => *e = v,
        None => {},
    }
}

/// Relies on `LinkedHashMap::get`: the entry under `k`, if there is one.
#[verifier::external_body]
fn map_get<'a>(m: &'a linked_hash_map::LinkedHashMap<String, Entry>, k: &str) -> (r: Option<
    &'a Entry,
>)
    ensures
        match r {
            Some(e) => lookup(entries_of(*m), k@) == Some(e@),
            None => lookup(entries_of(*m), k@) is None,
        },
{
    m.get(k)
}

/// Relies on `LinkedHashMap::remove`: the pair under `k` leaves the map, and
/// the others keep their order.
#[verifier::external_body]
fn map_remove(m: &mut linked_hash_map::LinkedHashMap<String, Entry>, k: &str)
    ensures
        entries_of(*final(m)) == without(entries_of(*old(m)), k@),
{
    m.remove(k);
}

/// Relies on `LinkedHashMap::len`: the number of pairs.
#[verifier::external_body]
fn map_len(m: &linked_hash_map::LinkedHashMap<String, Entry>) -> (r: usize)
    ensures
        r == entries_of(*m).len(),
{
    m.len()
}

/// Relies on `LinkedHashMap::values`: the entries, in order of insertion.
#[verifier::external_body]
fn map_values(m: &linked_hash_map::LinkedHashMap<String, Entry>) -> (r: Vec<Entry>)
    ensures
        r@.len() == entries_of(*m).len(),
        forall|i: int| 0 <= i < r@.len() ==> #[trigger] r@[i]@ == entries_of(*m)[i].1,
{
    m.values().cloned().collect()
}

/// `es` without the pairs whose key is `k`.
pub open spec fn without(es: Seq<(Seq<char>, EntryView)>, k: Seq<char>) -> Seq<(Seq<char>, EntryView)>
    decreases es.len(),
{
    if es.len() == 0 {
        es
    } else {
        let w = without(es.drop_last(), k);
        if es.last().0 == k { w } else { w.push(es.last()) }
    }
}

/// The entry under `k` in `es` (the last one, were there several).
pub open spec fn lookup(es: Seq<(Seq<char>, EntryView)>, k: Seq<char>) -> Option<EntryView>
    decreases es.len(),
{
    if es.len() == 0 {
        None
    } else if es.last().0 == k {
        Some(es.last().1)
    } else {
        lookup(es.drop_last(), k)
    }
}

/// The position of the entry under `k` in `es` (the last one, were there
/// several), or -1.
pub open spec fn index_of(es: Seq<(Seq<char>, EntryView)>, k: Seq<char>) -> int
    decreases es.len(),
{
    if es.len() == 0 {
        -1
    } else if es.last().0 == k {
        es.len() - 1
    } else {
        index_of(es.drop_last(), k)
    }
}

/// No two pairs of `es` have the same key.
pub open spec fn distinct(es: Seq<(Seq<char>, EntryView)>) -> bool
    decreases es.len(),
{
    es.len() == 0 || (distinct(es.drop_last()) && lookup(es.drop_last(), es.last().0) is None)
}

/// What a dictionary holds after adding `e` under `k`: the entry replaces
/// the one under `k` where it stands, or else comes last.
pub open spec fn added(es: Seq<(Seq<char>, EntryView)>, k: Seq<char>, e: EntryView) -> Seq<
    (Seq<char>, EntryView),
> {
    if lookup(es, k) is Some {
        es.update(index_of(es, k), (k, e))
    } else {
        es.push((k, e))
    }
}

/// The number of `/` in `k`.
pub open spec fn slashes(k: Seq<char>) -> nat
    decreases k.len(),
{
    if k.len() == 0 {
        0
    } else {
        slashes(k.drop_last()) + if k.last() == '/' { 1nat } else { 0nat }
    }
}

/// The number of strokes of an outline: its `/`-separated parts.
pub open spec fn strokes(k: Seq<char>) -> nat {
    slashes(k) + 1
}

/// The largest number of strokes among the outlines of `es`, or zero.
pub open spec fn longest(es: Seq<(Seq<char>, EntryView)>) -> nat
    decreases es.len(),
{
    if es.len() == 0 {
        0
    } else {
        let m = longest(es.drop_last());
        let c = strokes(es.last().0);
        if c > m { c } else { m }
    }
}

/// The outlines of `es` whose translation is `t`, in order.
pub open spec fn outlines_for(es: Seq<(Seq<char>, EntryView)>, t: Seq<char>) -> Seq<Seq<char>>
    decreases es.len(),
{
    if es.len() == 0 {
        Seq::empty()
    } else {
        let w = outlines_for(es.drop_last(), t);
        if es.last().1.translation == t { w.push(es.last().1.steno) } else { w }
    }
}

/// The RTF rendering of the entries of `es`, one after another.
pub open spec fn entries_rtf(es: Seq<(Seq<char>, EntryView)>) -> Seq<char>
    decreases es.len(),
{
    if es.len() == 0 {
        Seq::empty()
    } else {
        entries_rtf(es.drop_last()) + entry_rtf(
            es.last().1.steno,
            es.last().1.translation,
            es.last().1.comment,
        )
    }
}

/// A whole RTF dictionary: the header naming its system, the entries, and
/// the closing brace.
pub open spec fn dictionary_rtf(system: Seq<char>, es: Seq<(Seq<char>, EntryView)>) -> Seq<char> {
    "{\\rtf1\\ansi{\\*\\cxrev100}\\cxdict"@ + "{\\*\\cxsystem "@ + system + "}"@
        + "{\\stylesheet{\\s0 Normal;\\s1 Contin;}}\n"@ + entries_rtf(es) + "}\n"@
}

/// Each entry of `es` sits under its own outline, of a length that leaves
/// room to count its strokes.
pub open spec fn keyed(es: Seq<(Seq<char>, EntryView)>) -> bool {
    forall|i: int|
        0 <= i < es.len() ==> (#[trigger] es[i]).0 == es[i].1.steno && es[i].0.len() < usize::MAX
}

pub open spec fn string_views(v: Seq<String>) -> Seq<Seq<char>> {
    v.map_values(|s: String| s@)
}

proof fn lemma_without(es: Seq<(Seq<char>, EntryView)>, k: Seq<char>)
    ensures
        longest(without(es, k)) <= longest(es),
        longest(es) <= if strokes(k) > longest(without(es, k)) {
            strokes(k)
        } else {
            longest(without(es, k))
        },
        keyed(es) ==> keyed(without(es, k)),
    decreases es.len(),
{
    if es.len() > 0 {
        let d = es.drop_last();
        lemma_without(d, k);
        let w = without(d, k);
        if keyed(es) {
            assert forall|i: int| 0 <= i < d.len() implies (#[trigger] d[i]).0 == d[i].1.steno
                && d[i].0.len() < usize::MAX by {
                assert(d[i] == es[i]);
            }
        }
        if es.last().0 != k {
            assert(w.push(es.last()).drop_last() =~= w);
            assert(w.push(es.last()).last() == es.last());
            if keyed(es) {
                assert forall|i: int| 0 <= i < w.len() + 1 implies (#[trigger] w.push(
                    es.last(),
                )[i]).0 == w.push(es.last())[i].1.steno && w.push(es.last())[i].0.len()
                    < usize::MAX by {
                    if i < w.len() {
                        assert(w.push(es.last())[i] == w[i]);
                    } else {
                        assert(es[es.len() - 1] == es.last());
                    }
                }
            }
        }
    }
}

proof fn lemma_index_of(es: Seq<(Seq<char>, EntryView)>, k: Seq<char>)
    requires
        lookup(es, k) is Some,
    ensures
        0 <= index_of(es, k) < es.len(),
        es[index_of(es, k)].0 == k,
    decreases es.len(),
{
    if es.last().0 != k {
        lemma_index_of(es.drop_last(), k);
    }
}

proof fn lemma_lookup_without(es: Seq<(Seq<char>, EntryView)>, k: Seq<char>, j: Seq<char>)
    ensures
        lookup(without(es, k), j) == if j == k { None } else { lookup(es, j) },
    decreases es.len(),
{
    if es.len() > 0 {
        lemma_lookup_without(es.drop_last(), k, j);
        let w = without(es.drop_last(), k);
        if es.last().0 != k {
            assert(w.push(es.last()).drop_last() =~= w);
        }
    }
}

proof fn lemma_without_absent(es: Seq<(Seq<char>, EntryView)>, k: Seq<char>)
    requires
        lookup(es, k) is None,
    ensures
        without(es, k) == es,
    decreases es.len(),
{
    if es.len() > 0 {
        lemma_without_absent(es.drop_last(), k);
        assert(es.drop_last().push(es.last()) =~= es);
    }
}

proof fn lemma_distinct_without(es: Seq<(Seq<char>, EntryView)>, k: Seq<char>)
    requires
        distinct(es),
    ensures
        distinct(without(es, k)),
        without(es, k).len() == es.len() - if lookup(es, k) is Some { 1int } else { 0int },
    decreases es.len(),
{
    if es.len() > 0 {
        let d = es.drop_last();
        lemma_distinct_without(d, k);
        let w = without(d, k);
        if es.last().0 == k {
            lemma_without_absent(d, k);
        } else {
            lemma_lookup_without(d, k, es.last().0);
            assert(w.push(es.last()).drop_last() =~= w);
        }
    }
}

/// Two sequences of pairs with the same keys, position by position.
proof fn lemma_same_keys(a: Seq<(Seq<char>, EntryView)>, b: Seq<(Seq<char>, EntryView)>)
    requires
        a.len() == b.len(),
        forall|i: int| 0 <= i < a.len() ==> (#[trigger] a[i]).0 == b[i].0,
    ensures
        distinct(a) == distinct(b),
        longest(a) == longest(b),
        forall|j: Seq<char>| (#[trigger] lookup(a, j) is Some) == (lookup(b, j) is Some),
    decreases a.len(),
{
    if a.len() > 0 {
        let (da, db) = (a.drop_last(), b.drop_last());
        assert forall|i: int| 0 <= i < da.len() implies (#[trigger] da[i]).0 == db[i].0 by {
            assert(da[i] == a[i] && db[i] == b[i]);
        }
        lemma_same_keys(da, db);
        assert(a.last().0 == b.last().0) by {
            assert(a[a.len() - 1].0 == b[a.len() - 1].0);
        }
        assert forall|j: Seq<char>| (#[trigger] lookup(a, j) is Some) == (lookup(b, j) is Some) by {
            assert(lookup(da, j) is Some == lookup(db, j) is Some);
        }
    }
}

/// A steno dictionary: its entries in order of insertion, keyed by outline,
/// and the largest number of strokes among its outlines.
#[derive(Debug)]
pub struct Dictionary {
    pub cre_system: String,
    pub entries: linked_hash_map::LinkedHashMap<String, Entry>,
    pub longest_key: usize,
}

impl Dictionary {
    /// What the dictionary holds, in order of insertion.
    pub open spec fn contents(&self) -> Seq<(Seq<char>, EntryView)> {
        entries_of(self.entries)
    }

    /// Each entry sits under its own outline, no two under the same one, and
    /// `longest_key` is the largest number of strokes.
    pub open spec fn wf(&self) -> bool {
        &&& keyed(self.contents())
        &&& distinct(self.contents())
        &&& self.longest_key == longest(self.contents())
    }

    pub fn new(cre_system: &str) -> (r: Self)
        ensures
            r.wf(),
            r.cre_system@ == cre_system@,
            r.contents() == Seq::<(Seq<char>, EntryView)>::empty(),
    {
        Dictionary { cre_system: cre_system.to_owned(), entries: map_new(), longest_key: 0 }
    }

    /// Adds an entry under `steno`: it replaces, where it stands, the entry
    /// already there, or else comes last.
    pub fn add_entry(&mut self, steno: String, translation: String, comment: Option<String>)
        requires
            old(self).wf(),
            steno@.len() < usize::MAX,
        ensures
            final(self).wf(),
            final(self).cre_system == old(self).cre_system,
            final(self).contents() == added(
                old(self).contents(),
                steno@,
                EntryView { steno: steno@, translation: translation@, comment: opt_view(comment) },
            ),
    {
        let c = count_strokes(&steno);
        let entry = Entry {
            steno: steno.clone(),
            translation,
            metadata: match comment {
                Some(comm) => Some(EntryMetadata { comment: Some(comm) }),
                None => None,
            },
        };
        let ghost before = self.contents();
        let ghost v = entry@;
        if map_get(&self.entries, steno.as_str()).is_some() {
            let ghost i = index_of(before, steno@);
            proof {
                lemma_index_of(before, steno@);
            }
            map_replace(&mut self.entries, steno.as_str(), entry);
            proof {
                let after = self.contents();
                assert(after == before.update(i, (steno@, v)));
                assert forall|j: int| 0 <= j < after.len() implies (#[trigger] after[j]).0
                    == before[j].0 by {}
                lemma_same_keys(before, after);
                assert forall|j: int| 0 <= j < after.len() implies (#[trigger] after[j]).0
                    == after[j].1.steno && after[j].0.len() < usize::MAX by {
                    if j != i {
                        assert(after[j] == before[j]);
                    }
                }
            }
        } else {
            proof {
                lemma_without(before, steno@);
                lemma_without_absent(before, steno@);
            }
            map_insert(&mut self.entries, steno, entry);
            let ghost after = self.contents();
            proof {
                assert(after.drop_last() =~= before);
                assert(after.last() == after[after.len() - 1]);
                assert forall|i: int| 0 <= i < after.len() implies (#[trigger] after[i]).0
                    == after[i].1.steno && after[i].0.len() < usize::MAX by {
                    if i < before.len() {
                        assert(after[i] == before[i]);
                    }
                }
            }
            if c > self.longest_key {
                self.longest_key = c;
            }
        }
    }

    /// Removes the entry under `steno`, if there is one.
    pub fn remove_entry(&mut self, steno: String)
        requires
            old(self).wf(),
        ensures
            final(self).wf(),
            final(self).cre_system == old(self).cre_system,
            final(self).contents() == without(old(self).contents(), steno@),
            final(self).contents().len() == old(self).contents().len() - if lookup(
                old(self).contents(),
                steno@,
            ) is Some {
                1int
            } else {
                0int
            },
    {
        let ghost before = self.contents();
        proof {
            lemma_without(before, steno@);
            lemma_distinct_without(before, steno@);
        }
        map_remove(&mut self.entries, steno.as_str());
        let values = map_values(&self.entries);
        let mut m: usize = 0;
        let mut k: usize = 0;
        while k < values.len()
            invariant
                k <= values@.len(),
                values@.len() == self.contents().len(),
                forall|i: int| 0 <= i < values@.len() ==> #[trigger] values@[i]@ == self.contents()[i].1,
                keyed(self.contents()),
                m == longest(self.contents().take(k as int)),
            decreases values@.len() - k,
        {
            let e = &values[k];
            assert(values@[k as int]@ == self.contents()[k as int].1);
            assert(e.steno@ == self.contents()[k as int].1.steno);
            assert(e.translation@ == self.contents()[k as int].1.translation);
            assert(self.contents()[k as int].0.len() < usize::MAX);
            let c = count_strokes(&e.steno);
            proof {
                let t = self.contents().take(k + 1);
                assert(t.drop_last() =~= self.contents().take(k as int));
                assert(t.last() == self.contents()[k as int]);
            }
            if c > m {
                m = c;
            }
            k = k + 1;
        }
        assert(self.contents().take(k as int) =~= self.contents());
        self.longest_key = m;
    }

    pub fn contains_key(&self, steno: &str) -> (r: bool)
        ensures
            r == (lookup(self.contents(), steno@) is Some),
    {
        map_get(&self.entries, steno).is_some()
    }

    /// The translation under `steno`, if there is one.
    pub fn lookup(&self, steno: &str) -> (r: Option<String>)
        ensures
            opt_view(r) == match lookup(self.contents(), steno@) {
                Some(e) => Some(e.translation),
                None => None,
            },
    {
        match map_get(&self.entries, steno) {
            Some(e) => {
                Some(e.translation.clone())
            },
            None => None,
        }
    }

    /// The outlines whose translation is `translation`, in order of
    /// insertion, or `None` when there are none.
    pub fn rev_lookup(&self, translation: &str) -> (r: Option<Vec<String>>)
        ensures
            match r {
                Some(v) => v@.len() > 0 && string_views(v@) == outlines_for(
                    self.contents(),
                    translation@,
                ),
                None => outlines_for(self.contents(), translation@).len() == 0,
            },
    {
        let values = map_values(&self.entries);
        let t = translation.to_owned();
        let mut out: Vec<String> = Vec::new();
        let mut k: usize = 0;
        while k < values.len()
            invariant
                k <= values@.len(),
                values@.len() == self.contents().len(),
                forall|i: int| 0 <= i < values@.len() ==> #[trigger] values@[i]@ == self.contents()[i].1,
                t@ == translation@,
                string_views(out@) == outlines_for(
                    self.contents().take(k as int),
                    translation@,
                ),
            decreases values@.len() - k,
        {
            let e = &values[k];
            assert(values@[k as int]@ == self.contents()[k as int].1);
            assert(e.steno@ == self.contents()[k as int].1.steno);
            assert(e.translation@ == self.contents()[k as int].1.translation);
            proof {
                let tk = self.contents().take(k + 1);
                assert(tk.drop_last() =~= self.contents().take(k as int));
                assert(tk.last() == self.contents()[k as int]);
            }
            if e.translation == t {
                let ghost prev = out@;
                out.push(e.steno.clone());
                assert(string_views(out@) =~= string_views(prev).push(e.steno@));
            }
            k = k + 1;
        }
        assert(self.contents().take(k as int) =~= self.contents());
        if out.len() == 0 {
            None
        } else {
            Some(out)
        }
    }

    /// Appends the whole dictionary, as an RTF file, to `out`.
    pub fn write(&self, out: &mut String)
        ensures
            final(out)@ == old(out)@ + dictionary_rtf(self.cre_system@, self.contents()),
    {
        let ghost start = out@;
        out.append("{\\rtf1\\ansi{\\*\\cxrev100}\\cxdict");
        out.append("{\\*\\cxsystem ");
        out.append(self.cre_system.as_str());
        out.append("}");
        out.append("{\\stylesheet{\\s0 Normal;\\s1 Contin;}}\n");
        let ghost head = out@;
        let values = map_values(&self.entries);
        let mut k: usize = 0;
        while k < values.len()
            invariant
                k <= values@.len(),
                values@.len() == self.contents().len(),
                forall|i: int| 0 <= i < values@.len() ==> #[trigger] values@[i]@ == self.contents()[i].1,
                out@ == head + entries_rtf(self.contents().take(k as int)),
            decreases values@.len() - k,
        {
            values[k].write(out);
            proof {
                let tk = self.contents().take(k + 1);
                assert(tk.drop_last() =~= self.contents().take(k as int));
                assert(tk.last() == self.contents()[k as int]);
            }
            assert(out@ =~= head + entries_rtf(self.contents().take(k + 1)));
            k = k + 1;
        }
        assert(self.contents().take(k as int) =~= self.contents());
        out.append("}\n");
        assert(out@ =~= start + dictionary_rtf(self.cre_system@, self.contents()));
    }

    pub fn len(&self) -> (r: usize)
        ensures
            r == self.contents().len(),
    {
        map_len(&self.entries)
    }

    /// Removes every entry.
    pub fn clear(&mut self)
        ensures
            final(self).wf(),
            final(self).cre_system == old(self).cre_system,
            final(self).contents() == Seq::<(Seq<char>, EntryView)>::empty(),
    {
        self.entries = map_new();
        self.longest_key = 0;
    }

    /// The entry under `steno`, if there is one.
    pub fn entry(&self, steno: &str) -> (r: Option<&Entry>)
        ensures
            match r {
                Some(e) => lookup(self.contents(), steno@) == Some(e@),
                None => lookup(self.contents(), steno@) is None,
            },
    {
        map_get(&self.entries, steno)
    }
}

/// The number of strokes of an outline.
fn count_strokes(steno: &String) -> (r: usize)
    requires
        steno@.len() < usize::MAX,
    ensures
        r == strokes(steno@),
{
    let v = chars_of(steno.as_str());
    let mut c: usize = 0;
    let mut k: usize = 0;
    while k < v.len()
        invariant
            k <= v@.len(),
            v@ == steno@,
            c == slashes(v@.take(k as int)),
            c <= k,
        decreases v@.len() - k,
    {
        proof {
            assert(v@.take(k + 1).drop_last() =~= v@.take(k as int));
        }
        if v[k] == '/' {
            c = c + 1;
        }
        k = k + 1;
    }
    assert(v@.take(k as int) =~= v@);
    c + 1
}

} // verus!
