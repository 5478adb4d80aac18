//! Ruby annotations: where they sit in a buffer, and the fragments still owed.

use crate::document::{seg_text, segs_text, SegView, TimedSegOrFill};
use std::collections::VecDeque;
use vstd::std_specs::vecdeque::VecDequeAdditionalSpecFns;
use vstd::prelude::*;

verus! {

/// The fragments placed at one character of one track's buffer.
pub struct FuriEntry {
    pub track_id: u8,
    pub char_idx: usize,
    pub parts: Vec<String>,
}

/// View of a [`FuriEntry`].
pub ghost struct FuriEntryView {
    pub track_id: u8,
    pub char_idx: nat,
    pub parts: Seq<Seq<char>>,
}

impl DeepView for FuriEntry {
    type V = FuriEntryView;

    open spec fn deep_view(&self) -> FuriEntryView {
        FuriEntryView {
            track_id: self.track_id,
            char_idx: self.char_idx as nat,
            parts: self.parts.deep_view(),
        }
    }
}

/// For each track and character position that carries an annotation, the
/// fragments placed there. Entries are kept in the order in which their keys
/// were first used; a key is looked up by its first entry.
pub struct FuriMap {
    entries: Vec<FuriEntry>,
}

impl View for FuriMap {
    type V = Seq<FuriEntryView>;

    closed spec fn view(&self) -> Seq<FuriEntryView> {
        self.entries.deep_view()
    }
}

impl DeepView for FuriMap {
    type V = Seq<FuriEntryView>;

    open spec fn deep_view(&self) -> Seq<FuriEntryView> {
        self@
    }
}

/// The position of the first entry at or after `from` with the given key, or
/// the number of entries when there is none.
pub open spec fn furi_find(m: Seq<FuriEntryView>, track_id: u8, char_idx: nat, from: int) -> int
    decreases m.len() - from,
{
    if from < 0 || from >= m.len() {
        m.len() as int
    } else if m[from].track_id == track_id && m[from].char_idx == char_idx {
        from
    } else {
        furi_find(m, track_id, char_idx, from + 1)
    }
}

/// Whether the map has an entry for the key.
pub open spec fn furi_has(m: Seq<FuriEntryView>, track_id: u8, char_idx: nat) -> bool {
    furi_find(m, track_id, char_idx, 0) < m.len()
}

/// The fragments at the key, if it has an entry.
pub open spec fn furi_get(m: Seq<FuriEntryView>, track_id: u8, char_idx: nat) -> Option<
    Seq<Seq<char>>,
> {
    if furi_has(m, track_id, char_idx) {
        Some(m[furi_find(m, track_id, char_idx, 0)].parts)
    } else {
        None
    }
}

/// The map after the key's fragments are set to `first` alone: its entry is
/// overwritten in place, or a new entry is added at the end.
pub open spec fn furi_place(
    m: Seq<FuriEntryView>,
    track_id: u8,
    char_idx: nat,
    first: Seq<char>,
) -> Seq<FuriEntryView> {
    let e = FuriEntryView { track_id, char_idx, parts: seq![first] };
    if furi_has(m, track_id, char_idx) {
        m.update(furi_find(m, track_id, char_idx, 0), e)
    } else {
        m.push(e)
    }
}

/// The map after `part` is added to the key's fragments. A key without an
/// entry leaves the map as it is.
pub open spec fn furi_extend(
    m: Seq<FuriEntryView>,
    track_id: u8,
    char_idx: nat,
    part: Seq<char>,
) -> Seq<FuriEntryView> {
    if furi_has(m, track_id, char_idx) {
        let k = furi_find(m, track_id, char_idx, 0);
        m.update(k, FuriEntryView { track_id, char_idx, parts: m[k].parts.push(part) })
    } else {
        m
    }
}

/// Whether no key has two entries.
pub open spec fn furi_keys_unique(m: Seq<FuriEntryView>) -> bool {
    forall|i: int, j: int|
        0 <= i < j < m.len() ==> !((#[trigger] m[i]).track_id == (#[trigger] m[j]).track_id
            && m[i].char_idx == m[j].char_idx)
}

proof fn lemma_find_bounds(m: Seq<FuriEntryView>, track_id: u8, char_idx: nat, from: int)
    requires
        0 <= from <= m.len(),
    ensures
        from <= furi_find(m, track_id, char_idx, from) <= m.len(),
        furi_find(m, track_id, char_idx, from) < m.len() ==> {
            let k = furi_find(m, track_id, char_idx, from);
            m[k].track_id == track_id && m[k].char_idx == char_idx
        },
        forall|j: int|
            from <= j < furi_find(m, track_id, char_idx, from) ==> !((#[trigger] m[j]).track_id
                == track_id && m[j].char_idx == char_idx),
    decreases m.len() - from,
{
    if from < m.len() && !(m[from].track_id == track_id && m[from].char_idx == char_idx) {
        lemma_find_bounds(m, track_id, char_idx, from + 1);
    }
}

impl FuriMap {
    /// A map without entries.
    pub fn new() -> (m: FuriMap)
        ensures
            m@ == Seq::<FuriEntryView>::empty(),
    {
        let m = FuriMap { entries: Vec::new() };
        assert(m@ =~= Seq::<FuriEntryView>::empty());
        m
    }

    /// Removes every entry.
    pub fn clear(&mut self)
        ensures
            final(self)@ == Seq::<FuriEntryView>::empty(),
    {
        self.entries.clear();
        assert(self@ =~= Seq::<FuriEntryView>::empty());
    }

    /// The number of entries.
    pub fn len(&self) -> (n: usize)
        ensures
            n == self@.len(),
    {
        self.entries.len()
    }

    /// The entries, in the order in which their keys were first used.
    pub fn entries(&self) -> (es: &Vec<FuriEntry>)
        ensures
            es.deep_view() == self@,
    {
        &self.entries
    }

    /// The position of the key's entry, or `len()` when it has none.
    pub fn find(&self, track_id: u8, char_idx: usize) -> (k: usize)
        ensures
            k == furi_find(self@, track_id, char_idx as nat, 0),
            k <= self@.len(),
    {
        let mut k: usize = 0;
        proof {
            lemma_find_bounds(self@, track_id, char_idx as nat, 0);
        }
        while k < self.entries.len()
            invariant
                k <= self.entries.len(),
                self@ == self.entries.deep_view(),
                furi_find(self@, track_id, char_idx as nat, 0) == furi_find(
                    self@,
                    track_id,
                    char_idx as nat,
                    k as int,
                ),
            decreases self.entries.len() - k,
        {
            if self.entries[k].track_id == track_id && self.entries[k].char_idx == char_idx {
                return k;
            }
            k += 1;
        }
        k
    }

    /// The fragments placed at the key, if any.
    pub fn get(&self, track_id: u8, char_idx: usize) -> (r: Option<&Vec<String>>)
        ensures
            r.deep_view() == furi_get(self@, track_id, char_idx as nat),
    {
        let k = self.find(track_id, char_idx);
        if k < self.entries.len() {
            Some(&self.entries[k].parts)
        } else {
            None
        }
    }

    /// Sets the key's fragments to `first` alone.
    pub fn place(&mut self, track_id: u8, char_idx: usize, first: String)
        ensures
            final(self)@ == furi_place(old(self)@, track_id, char_idx as nat, first@),
    {
        let k = self.find(track_id, char_idx);
        let mut parts: Vec<String> = Vec::new();
        parts.push(first);
        assert(parts.deep_view() =~= seq![first@]);
        let e = FuriEntry { track_id, char_idx, parts };
        if k < self.entries.len() {
            self.entries[k] = e;
        } else {
            self.entries.push(e);
        }
        assert(self@ =~= furi_place(old(self)@, track_id, char_idx as nat, first@));
    }

    /// Adds `part` to the key's fragments; does nothing when the key has no
    /// entry.
    pub fn extend(&mut self, track_id: u8, char_idx: usize, part: String)
        ensures
            final(self)@ == furi_extend(old(self)@, track_id, char_idx as nat, part@),
    {
        let k = self.find(track_id, char_idx);
        if k < self.entries.len() {
            proof {
                lemma_find_bounds(self@, track_id, char_idx as nat, 0);
            }
            let ghost before = self.entries[k as int].parts.deep_view();
            self.entries[k].parts.push(part);
            assert(self.entries[k as int].parts.deep_view() =~= before.push(part@));
            assert(self@ =~= furi_extend(old(self)@, track_id, char_idx as nat, part@));
        }
    }
}

/// A copy of a list of strings.
pub fn clone_strings(v: &Vec<String>) -> (r: Vec<String>)
    ensures
        r.deep_view() == v.deep_view(),
{
    let mut r: Vec<String> = Vec::new();
    let mut i: usize = 0;
    while i < v.len()
        invariant
            i <= v.len(),
            r.len() == i,
            forall|j: int| 0 <= j < i ==> r[j]@ == v[j]@,
        decreases v.len() - i,
    {
        r.push(v[i].clone());
        i += 1;
    }
    assert(r.deep_view() =~= v.deep_view());
    r
}

impl Clone for FuriEntry {
    fn clone(&self) -> (e: FuriEntry)
        ensures
            e.deep_view() == self.deep_view(),
    {
        FuriEntry {
            track_id: self.track_id,
            char_idx: self.char_idx,
            parts: clone_strings(&self.parts),
        }
    }
}

impl Clone for FuriMap {
    fn clone(&self) -> (m: FuriMap)
        ensures
            m@ == self@,
    {
        let mut entries: Vec<FuriEntry> = Vec::new();
        let mut i: usize = 0;
        while i < self.entries.len()
            invariant
                i <= self.entries.len(),
                entries.len() == i,
                forall|j: int| 0 <= j < i ==> entries[j].deep_view() == self.entries[j].deep_view(),
            decreases self.entries.len() - i,
        {
            entries.push(self.entries[i].clone());
            i += 1;
        }
        let m = FuriMap { entries };
        assert(m@ =~= self@);
        m
    }
}

impl Default for FuriMap {
    fn default() -> (m: FuriMap)
        ensures
            m@ == Seq::<FuriEntryView>::empty(),
    {
        FuriMap::new()
    }
}

/// Fragments of one annotation that later `Fill` steps still have to place,
/// with the track and character they belong to.
pub struct FuriDebt {
    track_id: u8,
    char_idx: usize,
    debt: VecDeque<String>,
}

/// View of a [`FuriDebt`].
pub ghost struct FuriDebtView {
    pub track_id: u8,
    pub char_idx: nat,
    pub debt: Seq<Seq<char>>,
}

impl View for FuriDebt {
    type V = FuriDebtView;

    closed spec fn view(&self) -> FuriDebtView {
        FuriDebtView {
            track_id: self.track_id,
            char_idx: self.char_idx as nat,
            debt: self.debt.deep_view(),
        }
    }
}

impl DeepView for FuriDebt {
    type V = FuriDebtView;

    open spec fn deep_view(&self) -> FuriDebtView {
        self@
    }
}

/// The debt of a fresh state: nothing owed, at track 0, character 0.
pub open spec fn no_debt() -> FuriDebtView {
    FuriDebtView { track_id: 0, char_idx: 0, debt: Seq::empty() }
}

impl FuriDebt {
    /// A debt that owes nothing.
    pub fn new() -> (d: FuriDebt)
        ensures
            d@ == no_debt(),
    {
        let d = FuriDebt { track_id: 0, char_idx: 0, debt: VecDeque::new() };
        assert(d@.debt =~= Seq::<Seq<char>>::empty());
        d
    }

    /// The number of fragments still owed.
    pub fn pending(&self) -> (n: usize)
        ensures
            n == self@.debt.len(),
    {
        self.debt.len()
    }

}

impl Clone for FuriDebt {
    fn clone(&self) -> (d: FuriDebt)
        ensures
            d@ == self@,
    {
        let mut debt: VecDeque<String> = VecDeque::new();
        let mut i: usize = 0;
        while i < self.debt.len()
            invariant
                i <= self.debt.len(),
                debt.len() == i,
                forall|j: int| 0 <= j < i ==> debt[j]@ == self.debt[j]@,
            decreases self.debt.len() - i,
        {
            debt.push_back(self.debt[i].clone());
            i += 1;
        }
        let d = FuriDebt { track_id: self.track_id, char_idx: self.char_idx, debt };
        assert(d@.debt =~= self@.debt);
        d
    }
}

impl Default for FuriDebt {
    fn default() -> (d: FuriDebt)
        ensures
            d@ == no_debt(),
    {
        FuriDebt::new()
    }
}

/// A buffer together with the annotation map and the debt that the segment
/// writer keeps for it.
pub ghost struct Channel {
    pub text: Seq<char>,
    pub furi: Seq<FuriEntryView>,
    pub debt: FuriDebtView,
}

/// The position that an annotation of freshly written text gets: that of the
/// last character of the buffer (0 for an empty buffer).
pub open spec fn last_char_idx(text: Seq<char>) -> nat {
    if text.len() == 0 {
        0
    } else {
        (text.len() - 1) as nat
    }
}

/// What writing one segment for track `track_id` does to a channel.
///
/// A `Seg` appends its text. If it has ruby fragments, the first is placed
/// at the last character just written, replacing what was placed there, and
/// the others become the channel's debt, replacing any earlier debt. A `Fill`
/// takes the first owed fragment, if any, and adds it to the entry that the
/// debt names; without such an entry the fragment is dropped.
pub open spec fn write_seg_spec(c: Channel, seg: SegView, track_id: u8) -> Channel {
    match seg {
        SegView::Seg { text, furigana } => {
            let written = c.text + text;
            if furigana.len() > 0 {
                let at = last_char_idx(written);
                Channel {
                    text: written,
                    furi: furi_place(c.furi, track_id, at, furigana[0]),
                    debt: FuriDebtView {
                        track_id,
                        char_idx: at,
                        debt: furigana.subrange(1, furigana.len() as int),
                    },
                }
            } else {
                Channel { text: written, ..c }
            }
        },
        SegView::Fill => {
            if c.debt.debt.len() > 0 {
                Channel {
                    text: c.text,
                    furi: furi_extend(c.furi, c.debt.track_id, c.debt.char_idx, c.debt.debt[0]),
                    debt: FuriDebtView {
                        debt: c.debt.debt.subrange(1, c.debt.debt.len() as int),
                        ..c.debt
                    },
                }
            } else {
                c
            }
        },
    }
}

/// The channel after the first `n` of `segs` are written in order.
pub open spec fn write_segs_spec(c: Channel, segs: Seq<SegView>, track_id: u8, n: nat) -> Channel
    decreases n,
{
    if n == 0 {
        c
    } else {
        write_seg_spec(write_segs_spec(c, segs, track_id, (n - 1) as nat), segs[n - 1], track_id)
    }
}

/// Writes one segment of track `track_id` into `dest`, keeping the
/// annotation map and the debt of that buffer up to date.
pub fn write_seg(
    dest: &mut String,
    seg: &TimedSegOrFill,
    track_id: u8,
    furi: &mut FuriMap,
    furi_debt: &mut FuriDebt,
)
    ensures
        (Channel { text: final(dest)@, furi: final(furi)@, debt: final(furi_debt)@ })
            == write_seg_spec(
            (Channel { text: old(dest)@, furi: old(furi)@, debt: old(furi_debt)@ }),
            seg.deep_view(),
            track_id,
        ),
{
    match seg {
        TimedSegOrFill::Seg { text, furigana } => {
            dest.append(text.as_str());
            if furigana.len() > 0 {
                let n = dest.as_str().unicode_len();
                let last_idx = if n > 0 {
                    n - 1
                } else {
                    0
                };
                furi.place(track_id, last_idx, furigana[0].clone());
                let mut rest: VecDeque<String> = VecDeque::new();
                let mut i: usize = 1;
                while i < furigana.len()
                    invariant
                        1 <= i <= furigana.len(),
                        rest.len() == i - 1,
                        forall|j: int| 0 <= j < i - 1 ==> rest[j]@ == furigana[j + 1]@,
                    decreases furigana.len() - i,
                {
                    rest.push_back(furigana[i].clone());
                    i += 1;
                }
                furi_debt.track_id = track_id;
                furi_debt.char_idx = last_idx;
                furi_debt.debt = rest;
                assert(furi_debt@.debt =~= furigana.deep_view().subrange(
                    1,
                    furigana.len() as int,
                ));
            }
        },
        TimedSegOrFill::Fill => {
            let ghost owed = furi_debt@.debt;
            if let Some(part) = furi_debt.debt.pop_front() {
                assert(furi_debt@.debt =~= owed.subrange(1, owed.len() as int));
                furi.extend(furi_debt.track_id, furi_debt.char_idx, part);
            }
        },
    }
}

/// Setting or extending the fragments of a key never gives a key a second
/// entry.
pub proof fn lemma_keys_stay_unique(
    m: Seq<FuriEntryView>,
    track_id: u8,
    char_idx: nat,
    part: Seq<char>,
)
    requires
        furi_keys_unique(m),
    ensures
        furi_keys_unique(furi_place(m, track_id, char_idx, part)),
        furi_keys_unique(furi_extend(m, track_id, char_idx, part)),
{
    lemma_find_bounds(m, track_id, char_idx, 0);
    let k = furi_find(m, track_id, char_idx, 0);
    let placed = furi_place(m, track_id, char_idx, part);
    assert forall|i: int, j: int| 0 <= i < j < placed.len() implies !((#[trigger] placed[i]).track_id
        == (#[trigger] placed[j]).track_id && placed[i].char_idx == placed[j].char_idx) by {
        if k < m.len() {
            assert(placed[i].track_id == m[i].track_id && placed[i].char_idx == m[i].char_idx);
            assert(placed[j].track_id == m[j].track_id && placed[j].char_idx == m[j].char_idx);
        } else if j == m.len() {
            assert(placed[i] == m[i]);
        } else {
            assert(placed[i] == m[i] && placed[j] == m[j]);
        }
    }
    let extended = furi_extend(m, track_id, char_idx, part);
    assert forall|i: int, j: int| 0 <= i < j < extended.len() implies !((
    #[trigger] extended[i]).track_id == (#[trigger] extended[j]).track_id && extended[i].char_idx
        == extended[j].char_idx) by {
        assert(extended[i].track_id == m[i].track_id && extended[i].char_idx == m[i].char_idx);
        assert(extended[j].track_id == m[j].track_id && extended[j].char_idx == m[j].char_idx);
    }
}

/// Writing a segment never gives a key of the annotation map a second
/// entry.
pub proof fn lemma_write_seg_keeps_keys_unique(c: Channel, seg: SegView, track_id: u8)
    requires
        furi_keys_unique(c.furi),
    ensures
        furi_keys_unique(write_seg_spec(c, seg, track_id).furi),
{
    match seg {
        SegView::Seg { text, furigana } => {
            if furigana.len() > 0 {
                lemma_keys_stay_unique(
                    c.furi,
                    track_id,
                    last_char_idx(c.text + text),
                    furigana[0],
                );
            }
        },
        SegView::Fill => {
            if c.debt.debt.len() > 0 {
                lemma_keys_stay_unique(c.furi, c.debt.track_id, c.debt.char_idx, c.debt.debt[0]);
            }
        },
    }
}

/// Writing segments in order never gives a key of the annotation map a
/// second entry.
pub proof fn lemma_write_segs_keep_keys_unique(
    c: Channel,
    segs: Seq<SegView>,
    track_id: u8,
    n: nat,
)
    requires
        furi_keys_unique(c.furi),
    ensures
        furi_keys_unique(write_segs_spec(c, segs, track_id, n).furi),
    decreases n,
{
    if n > 0 {
        lemma_write_segs_keep_keys_unique(c, segs, track_id, (n - 1) as nat);
        lemma_write_seg_keeps_keys_unique(
            write_segs_spec(c, segs, track_id, (n - 1) as nat),
            segs[n - 1],
            track_id,
        );
    }
}

/// The text of a buffer after segments are written into it is the text
/// before, followed by the texts of the segments: annotations and fills add
/// no text.
pub proof fn lemma_written_text(c: Channel, segs: Seq<SegView>, track_id: u8, n: nat)
    ensures
        write_segs_spec(c, segs, track_id, n).text == c.text + segs_text(segs, n),
    decreases n,
{
    if n == 0 {
        assert(c.text + segs_text(segs, 0) =~= c.text);
    } else {
        lemma_written_text(c, segs, track_id, (n - 1) as nat);
        let before = write_segs_spec(c, segs, track_id, (n - 1) as nat);
        assert(write_seg_spec(before, segs[n - 1], track_id).text =~= before.text + seg_text(
            segs[n - 1],
        ));
        assert(write_segs_spec(c, segs, track_id, n).text =~= c.text + segs_text(segs, n));
    }
}

} // verus!
