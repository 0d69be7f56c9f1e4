//! The session journal: an append-only tree of entries, read off a file of lines.
//!
//! A line that was cut off at the end of the file is dropped.

use crate::entry;
use crate::entry::{Entry, EntryView};
use crate::error::SessionError;
use crate::text;
use vstd::hash_map::StringHashMap;
use vstd::prelude::*;
use vstd::string::*;

verus! {

/// What a journal holds: the header, the entries in order, and the id of the current one.
pub struct JournalView {
    pub header: Option<EntryView>,
    pub entries: Seq<EntryView>,
    pub leaf: Option<Seq<char>>,
}

/// The place of the last entry with an id.
pub open spec fn place_of(entries: Seq<EntryView>, id: Seq<char>) -> Option<int>
    decreases entries.len(),
{
    if entries.len() == 0 {
        None
    } else if entry::entry_id(entries.last()) == Some(id) {
        Some(entries.len() - 1)
    } else {
        place_of(entries.drop_last(), id)
    }
}

/// The id of the parent of the entry with an id.
pub open spec fn parent_in(entries: Seq<EntryView>, id: Seq<char>) -> Option<Seq<char>> {
    match place_of(entries, id) {
        Some(i) => entry::entry_parent(entries[i]),
        None => None,
    }
}

/// Whether the way from `cur` to the root ends within `n` steps.
pub open spec fn ends_within(entries: Seq<EntryView>, cur: Option<Seq<char>>, n: nat) -> bool
    decreases n,
{
    match cur {
        None => true,
        Some(id) => n > 0 && ends_within(entries, parent_in(entries, id), (n - 1) as nat),
    }
}

/// The ids on the way from `cur` to the root, at most `n` of them.
pub open spec fn path_of(entries: Seq<EntryView>, cur: Option<Seq<char>>, n: nat) -> Seq<Seq<char>>
    decreases n,
{
    match cur {
        None => Seq::empty(),
        Some(id) => if n == 0 {
            Seq::empty()
        } else {
            seq![id] + path_of(entries, parent_in(entries, id), (n - 1) as nat)
        },
    }
}

/// Whether the way from `cur` to the root ends at all.
pub open spec fn has_root(entries: Seq<EntryView>, cur: Option<Seq<char>>) -> bool {
    exists|n: nat| ends_within(entries, cur, n)
}

/// The ids on the way from `cur` to the root. A way that ends has at most one id more than
/// there are entries.
pub open spec fn root_path(entries: Seq<EntryView>, cur: Option<Seq<char>>) -> Seq<Seq<char>> {
    path_of(entries, cur, entries.len() + 1)
}

/// The journal with one more entry. Headers are not part of the tree and leave it as it is.
pub open spec fn appended(j: JournalView, e: EntryView) -> JournalView {
    match entry::entry_id(e) {
        Some(id) => JournalView { entries: j.entries.push(e), leaf: Some(id), ..j },
        None => j,
    }
}

/// The journal after an entry was read from the file: a header becomes the header.
pub open spec fn loaded(j: JournalView, e: EntryView) -> JournalView {
    match e {
        EntryView::SessionHeader { .. } => JournalView { header: Some(e), ..j },
        _ => appended(j, e),
    }
}

/// The journal after a list of entries was read from the file.
pub open spec fn all_loaded(j: JournalView, list: Seq<EntryView>) -> JournalView
    decreases list.len(),
{
    if list.len() == 0 {
        j
    } else {
        loaded(all_loaded(j, list.drop_last()), list.last())
    }
}

/// The id of the last entry.
pub open spec fn tip(entries: Seq<EntryView>) -> Option<Seq<char>> {
    if entries.len() == 0 {
        None
    } else {
        entry::entry_id(entries.last())
    }
}

/// A journal without entries.
pub open spec fn empty_journal() -> JournalView {
    JournalView { header: None, entries: Seq::empty(), leaf: None }
}

/// A line of the file that is not blank.
#[derive(Debug)]
pub struct Line {
    pub text: String,
    /// Whether a line feed ends the line.
    pub complete: bool,
}

/// What a `Line` denotes.
pub struct LineView {
    pub text: Seq<char>,
    pub complete: bool,
}

impl View for Line {
    type V = LineView;

    open spec fn view(&self) -> LineView {
        LineView { text: self.text@, complete: self.complete }
    }
}

/// The lines of a file that are not blank, in order; all but the last line of a file are
/// complete, and the last is where the file ends in a line feed.
pub open spec fn file_lines(raw: Seq<char>) -> Seq<LineView> {
    kept_lines(text::text_lines(raw), raw.len() > 0 && raw.last() == '\n')
}

/// The lines that are not blank. `ended` says whether the last is complete.
pub open spec fn kept_lines(lines: Seq<Seq<char>>, ended: bool) -> Seq<LineView>
    decreases lines.len(),
{
    if lines.len() == 0 {
        Seq::empty()
    } else {
        let rest = kept_lines(lines.drop_last(), true);
        if text::trimmed(lines.last()).len() == 0 {
            rest
        } else {
            rest.push(LineView { text: lines.last(), complete: ended })
        }
    }
}

/// Splits the text of a journal file into its lines.
pub fn journal_lines(raw: &str) -> (r: Vec<Line>)
    ensures
        r@.map_values(|l: Line| l@) == file_lines(raw@),
{
    let all = text::lines(raw);
    let ended = text::ends_with(raw, "\n");
    let ghost lines = text::strs(all@);
    proof {
        reveal_strlit("\n");
        let s = raw@;
        if s.len() > 0 {
            assert(s.skip(s.len() - 1) =~= seq![s.last()]);
            assert("\n"@ =~= seq!['\n']);
            if s.last() != '\n' {
                assert(seq![s.last()][0] != "\n"@[0]);
            }
        }
        assert(ended == (s.len() > 0 && s.last() == '\n'));
    }
    let mut out: Vec<Line> = Vec::new();
    let mut i: usize = 0;
    assert(lines.take(0) =~= Seq::<Seq<char>>::empty());
    assert(out@.map_values(|l: Line| l@) =~= Seq::<LineView>::empty());
    while i < all.len()
        invariant
            i <= all@.len(),
            lines == text::strs(all@),
            out@.map_values(|l: Line| l@) == kept_lines(
                lines.take(i as int),
                i < all@.len() || ended,
            ),
        decreases all@.len() - i,
    {
        proof {
            assert(lines.take(i + 1).drop_last() =~= lines.take(i as int));
            assert(lines.take(i + 1).last() == all@[i as int]@);
        }
        if !text::is_blank(all[i].as_str()) {
            let ghost before = out@;
            let l = Line { text: all[i].clone(), complete: i + 1 < all.len() || ended };
            out.push(l);
            assert(out@.map_values(|l: Line| l@) =~= before.map_values(|l: Line| l@).push(l@));
        }
        i += 1;
    }
    assert(lines.take(all@.len() as int) =~= lines);
    out
}

/// A line of the file as it was decoded: an entry, or why it is none.
#[derive(Debug)]
pub struct ReadLine {
    pub entry: Result<Entry, String>,
    /// Whether a line feed ends the line.
    pub complete: bool,
}

/// What a `ReadLine` denotes.
pub struct ReadLineView {
    pub entry: Result<EntryView, Seq<char>>,
    pub complete: bool,
}

impl View for ReadLine {
    type V = ReadLineView;

    open spec fn view(&self) -> ReadLineView {
        ReadLineView {
            entry: match self.entry {
                Ok(e) => Ok(e@),
                Err(m) => Err(m@),
            },
            complete: self.complete,
        }
    }
}

/// The views of a list of decoded lines.
pub open spec fn read_views(s: Seq<ReadLine>) -> Seq<ReadLineView> {
    s.map_values(|l: ReadLine| l@)
}

/// The entries of a file: the first complete line that is no entry is an error, a partial
/// line that is none is dropped.
pub open spec fn read_entries(lines: Seq<ReadLineView>) -> Result<Seq<EntryView>, Seq<char>>
    decreases lines.len(),
{
    if lines.len() == 0 {
        Ok(Seq::empty())
    } else {
        match (read_entries(lines.drop_last()), lines.last().entry) {
            (Err(m), _) => Err(m),
            (Ok(list), Ok(e)) => Ok(list.push(e)),
            (Ok(list), Err(m)) => if lines.last().complete {
                Err(m)
            } else {
                Ok(list)
            },
        }
    }
}

/// The entry tree of a session, in memory.
pub struct Journal {
    header: Option<Entry>,
    entries: Vec<Entry>,
    index: StringHashMap<usize>,
    leaf: Option<String>,
}

/// The views of a list of entries.
pub open spec fn entry_views(s: Seq<Entry>) -> Seq<EntryView> {
    s.map_values(|e: Entry| e@)
}

impl View for Journal {
    type V = JournalView;

    closed spec fn view(&self) -> JournalView {
        JournalView {
            header: match self.header {
                Some(h) => Some(h@),
                None => None,
            },
            entries: entry_views(self.entries@),
            leaf: text::opt_str(self.leaf),
        }
    }
}

impl Journal {
    /// The index gives the place of every id, and of nothing else. The current entry is the
    /// last one.
    pub closed spec fn wf(&self) -> bool {
        &&& forall|id: Seq<char>| #[trigger]
            place_of(entry_views(self.entries@), id) == (if self.index@.contains_key(id) {
                Some(self.index@[id] as int)
            } else {
                None
            })
        &&& self@.leaf == tip(self@.entries)
        &&& self@.entries.len() > 0 ==> self@.leaf is Some
    }

    /// A journal without entries.
    pub fn new() -> (r: Self)
        ensures
            r.wf(),
            r@ == empty_journal(),
    {
        let r = Journal {
            header: None,
            entries: Vec::new(),
            index: StringHashMap::new(),
            leaf: None,
        };
        assert(entry_views(r.entries@) =~= Seq::empty());
        r
    }

    /// Builds the journal of a file from its decoded lines, in order.
    pub fn open(lines: Vec<ReadLine>) -> (r: Result<Self, SessionError>)
        ensures
            match (r, read_entries(read_views(lines@))) {
                (Ok(j), Ok(list)) => j.wf() && j@ == all_loaded(empty_journal(), list),
                (Err(SessionError::Json(m)), Err(want)) => m@ == want,
                _ => false,
            },
    {
        let mut j = Journal::new();
        let ghost all = lines@;
        let ghost views = read_views(all);
        let mut rest = lines;
        let ghost mut done: int = 0;
        let ghost mut list: Seq<EntryView> = Seq::empty();
        assert(views.take(0) =~= Seq::<ReadLineView>::empty());
        while rest.len() > 0
            invariant
                0 <= done <= all.len(),
                views == read_views(all),
                all == lines@,
                rest@ =~= all.skip(done),
                read_entries(views.take(done)) == Ok::<Seq<EntryView>, Seq<char>>(list),
                j.wf(),
                j@ == all_loaded(empty_journal(), list),
            decreases rest@.len(),
        {
            assert(rest@[0] == all[done]);
            proof {
                assert(views.take(done + 1).drop_last() =~= views.take(done));
                assert(views.take(done + 1).last() == all[done]@);
            }
            let line = rest.remove(0);
            match line.entry {
                Ok(e) => {
                    proof {
                        assert(list.push(e@).drop_last() =~= list);
                        list = list.push(e@);
                    }
                    j.load(e);
                },
                Err(m) => {
                    if line.complete {
                        proof {
                            lemma_read_error(views, done + 1);
                        }
                        return Err(SessionError::Json(m));
                    }
                },
            }
            proof {
                done = done + 1;
            }
        }
        assert(views.take(views.len() as int) =~= views);
        Ok(j)
    }

    fn load(&mut self, e: Entry)
        requires
            old(self).wf(),
        ensures
            final(self).wf(),
            final(self)@ == loaded(old(self)@, e@),
    {
        match e {
            Entry::SessionHeader { .. } => {
                self.header = Some(e);
            },
            _ => {
                self.append(e);
            },
        }
    }

    /// Adds an entry and makes it the current one; returns its id. A header is not added.
    pub fn append(&mut self, e: Entry) -> (r: Option<String>)
        requires
            old(self).wf(),
        ensures
            final(self).wf(),
            final(self)@ == appended(old(self)@, e@),
            text::opt_str(r) == entry::entry_id(e@),
    {
        let id: Option<String> = match e.id() {
            Some(t) => Some(t.to_owned()),
            None => None,
        };
        if let Some(t) = &id {
            let ghost before = entry_views(self.entries@);
            let n = self.entries.len();
            self.index.insert(t.clone(), n);
            self.leaf = Some(t.clone());
            self.entries.push(e);
            proof {
                let after = entry_views(self.entries@);
                assert(after =~= before.push(e@));
                assert(after.drop_last() =~= before);
                assert forall|id: Seq<char>| #[trigger] place_of(after, id) == (
                if self.index@.contains_key(id) {
                    Some(self.index@[id] as int)
                } else {
                    None
                }) by {
                    let earlier = place_of(before, id);
                }
            }
        }
        id
    }

    /// The number of entries.
    pub fn len(&self) -> (r: usize)
        ensures
            r == self@.entries.len(),
    {
        self.entries.len()
    }

    /// The entries in order.
    pub fn entries(&self) -> (r: &Vec<Entry>)
        ensures
            entry_views(r@) == self@.entries,
    {
        &self.entries
    }

    /// The header.
    pub fn header(&self) -> (r: Option<&Entry>)
        ensures
            (match r {
                Some(h) => Some(h@),
                None => None,
            }) == self@.header,
    {
        match &self.header {
            Some(h) => Some(h),
            None => None,
        }
    }

    /// The id of the current entry.
    pub fn leaf(&self) -> (r: Option<&str>)
        ensures
            text::opt_slice(r) == self@.leaf,
    {
        match &self.leaf {
            Some(t) => Some(t.as_str()),
            None => None,
        }
    }

    /// The id of the current entry.
    pub fn leaf_id(&self) -> (r: Option<String>)
        ensures
            text::opt_str(r) == self@.leaf,
    {
        match &self.leaf {
            Some(t) => Some(t.clone()),
            None => None,
        }
    }

    /// The place of the last entry with an id.
    pub fn place(&self, id: &str) -> (r: Option<usize>)
        requires
            self.wf(),
        ensures
            (match r {
                Some(i) => Some(i as int),
                None => None,
            }) == place_of(self@.entries, id@),
            r matches Some(i) ==> i < self@.entries.len(),
    {
        proof {
            lemma_place(self@.entries, id@);
        }
        match self.index.get(id) {
            Some(i) => Some(*i),
            None => None,
        }
    }

    fn parent(&self, id: &str) -> (r: Option<String>)
        requires
            self.wf(),
        ensures
            text::opt_str(r) == parent_in(self@.entries, id@),
    {
        match self.place(id) {
            Some(i) => match self.entries[i].parent_id() {
                Some(p) => Some(p.to_owned()),
                None => None,
            },
            None => None,
        }
    }

    /// The ids on the way from `leaf` to the root. The way must end.
    pub fn path_to_root(&self, leaf: Option<&str>) -> (r: Vec<String>)
        requires
            self.wf(),
            has_root(self@.entries, text::opt_slice(leaf)),
        ensures
            text::strs(r@) == root_path(self@.entries, text::opt_slice(leaf)),
    {
        match self.find_path_to_root(leaf) {
            Some(path) => path,
            None => Vec::new(),
        }
    }

    /// The ids on the way from `leaf` to the root; `None` where the way goes round in a
    /// circle.
    pub fn find_path_to_root(&self, leaf: Option<&str>) -> (r: Option<Vec<String>>)
        requires
            self.wf(),
        ensures
            match r {
                Some(path) => has_root(self@.entries, text::opt_slice(leaf)) && text::strs(path@)
                    == root_path(self@.entries, text::opt_slice(leaf)),
                None => !has_root(self@.entries, text::opt_slice(leaf)),
            },
    {
        let ghost entries = self@.entries;
        let ghost start = text::opt_slice(leaf);
        let ghost total = entries.len() + 1;
        let mut out: Vec<String> = Vec::new();
        let mut cur: Option<String> = match leaf {
            Some(t) => Some(t.to_owned()),
            None => None,
        };
        let n = self.entries.len();
        let mut steps: usize = 0;
        assert(text::strs(out@) + path_of(entries, start, total) =~= path_of(
            entries,
            start,
            total,
        ));
        loop
            invariant_except_break
                text::strs(out@) + path_of(
                    entries,
                    text::opt_str(cur),
                    (total - steps) as nat,
                ) == path_of(entries, start, total),
                ends_within(entries, start, total) == ends_within(
                    entries,
                    text::opt_str(cur),
                    (total - steps) as nat,
                ),
            invariant
                self.wf(),
                entries == self@.entries,
                n == entries.len(),
                total == n + 1,
                steps <= n,
                start == text::opt_slice(leaf),
            ensures
                ends_within(entries, start, total),
                text::strs(out@) == path_of(entries, start, total),
            decreases n - steps,
        {
            match cur {
                None => {
                    assert(text::strs(out@) + Seq::<Seq<char>>::empty() =~= text::strs(out@));
                    break;
                },
                Some(c) => {
                    let next = self.parent(c.as_str());
                    let ghost before = out@;
                    let ghost id = c@;
                    let ghost tail = path_of(
                        entries,
                        parent_in(entries, id),
                        (total - steps - 1) as nat,
                    );
                    out.push(c);
                    assert(text::strs(out@) =~= text::strs(before).push(id));
                    assert(text::strs(out@) + tail =~= text::strs(before) + (seq![id] + tail));
                    assert(ends_within(entries, Some(id), (total - steps) as nat) == ends_within(
                        entries,
                        parent_in(entries, id),
                        (total - steps - 1) as nat,
                    ));
                    if steps == n {
                        assert(ends_within(entries, parent_in(entries, id), 0) == (parent_in(
                            entries,
                            id,
                        ) is None));
                        if next.is_some() {
                            proof {
                                if has_root(entries, start) {
                                    lemma_way_is_short(entries, start);
                                }
                            }
                            return None;
                        }
                        assert(text::strs(out@) + tail =~= text::strs(out@));
                        break;
                    }
                    cur = next;
                    steps += 1;
                },
            }
        }
        Some(out)
    }

    /// The place of the first entry that a physical compaction keeps: the newest checkpoint,
    /// or the first entry where there is none.
    pub fn compact_start(&self) -> (r: usize)
        ensures
            r == first_kept(self@.entries),
    {
        let mut i: usize = self.entries.len();
        let ghost entries = self@.entries;
        assert(entries.take(i as int) =~= entries);
        while i > 0
            invariant
                i <= self.entries@.len(),
                entries == entry_views(self.entries@),
                first_kept(entries) == first_kept(entries.take(i as int)),
            decreases i,
        {
            assert(entries.take(i as int).last() == self.entries@[i - 1]@);
            if self.entries[i - 1].checkpoint() {
                return i - 1;
            }
            assert(entries.take(i as int).drop_last() =~= entries.take(i - 1));
            i -= 1;
        }
        0
    }
}

impl Default for Journal {
    fn default() -> (r: Self)
        ensures
            r.wf(),
            r@ == empty_journal(),
    {
        Journal::new()
    }
}

/// The place of the newest checkpoint, or 0 where there is none.
pub open spec fn first_kept(entries: Seq<EntryView>) -> int
    decreases entries.len(),
{
    if entries.len() == 0 {
        0
    } else if entry::is_checkpoint(entries.last()) {
        entries.len() - 1
    } else {
        first_kept(entries.drop_last())
    }
}

proof fn lemma_read_error(lines: Seq<ReadLineView>, i: int)
    requires
        0 <= i <= lines.len(),
        read_entries(lines.take(i)) is Err,
    ensures
        read_entries(lines) == read_entries(lines.take(i)),
    decreases lines.len() - i,
{
    if i < lines.len() {
        assert(lines.take(i + 1).drop_last() =~= lines.take(i));
        lemma_read_error(lines, i + 1);
    } else {
        assert(lines.take(i) =~= lines);
    }
}

proof fn lemma_place(entries: Seq<EntryView>, id: Seq<char>)
    ensures
        place_of(entries, id) matches Some(i) ==> 0 <= i < entries.len() && entry::entry_id(
            entries[i],
        ) == Some(id),
    decreases entries.len(),
{
    if entries.len() > 0 {
        lemma_place(entries.drop_last(), id);
    }
}

/// A way that ends is the same however many steps are allowed beyond its end.
proof fn lemma_same_path(entries: Seq<EntryView>, cur: Option<Seq<char>>, m: nat, n: nat)
    requires
        ends_within(entries, cur, m),
        ends_within(entries, cur, n),
    ensures
        path_of(entries, cur, m) == path_of(entries, cur, n),
    decreases m,
{
    if let Some(id) = cur {
        lemma_same_path(entries, parent_in(entries, id), (m - 1) as nat, (n - 1) as nat);
    }
}

/// From each id on a way that ends, the rest of the way follows.
proof fn lemma_suffix(entries: Seq<EntryView>, cur: Option<Seq<char>>, n: nat, i: int)
    requires
        ends_within(entries, cur, n),
        0 <= i < path_of(entries, cur, n).len(),
    ensures
        i < n,
        ends_within(entries, Some(path_of(entries, cur, n)[i]), (n - i) as nat),
        path_of(entries, Some(path_of(entries, cur, n)[i]), (n - i) as nat) == path_of(
            entries,
            cur,
            n,
        ).skip(i),
    decreases n,
{
    let id = cur->Some_0;
    let next = parent_in(entries, id);
    let tail = path_of(entries, next, (n - 1) as nat);
    assert(path_of(entries, cur, n) == seq![id] + tail);
    if i == 0 {
        assert(path_of(entries, cur, n).skip(0) =~= path_of(entries, cur, n));
    } else {
        assert((seq![id] + tail)[i] == tail[i - 1]);
        lemma_suffix(entries, next, (n - 1) as nat, i - 1);
        assert((seq![id] + tail).skip(i) =~= tail.skip(i - 1));
    }
}

/// On a way that ends no id comes twice.
proof fn lemma_no_repeats(entries: Seq<EntryView>, cur: Option<Seq<char>>, n: nat, i: int, j: int)
    requires
        ends_within(entries, cur, n),
        0 <= i < j < path_of(entries, cur, n).len(),
    ensures
        path_of(entries, cur, n)[i] != path_of(entries, cur, n)[j],
{
    let p = path_of(entries, cur, n);
    if p[i] == p[j] {
        lemma_suffix(entries, cur, n, i);
        lemma_suffix(entries, cur, n, j);
        lemma_same_path(entries, Some(p[i]), (n - i) as nat, (n - j) as nat);
        assert(p.skip(i).len() == p.skip(j).len());
    }
}

/// Every id on a way, but for the last, is that of an entry.
proof fn lemma_indexed(entries: Seq<EntryView>, cur: Option<Seq<char>>, n: nat, i: int)
    requires
        ends_within(entries, cur, n),
        0 <= i < path_of(entries, cur, n).len() - 1,
    ensures
        place_of(entries, path_of(entries, cur, n)[i]) is Some,
    decreases n,
{
    let id = cur->Some_0;
    let next = parent_in(entries, id);
    let tail = path_of(entries, next, (n - 1) as nat);
    if i > 0 {
        assert((seq![id] + tail)[i] == tail[i - 1]);
        lemma_indexed(entries, next, (n - 1) as nat, i - 1);
    }
}

/// A way that ends does so at the end of its ids.
proof fn lemma_ends_at_length(entries: Seq<EntryView>, cur: Option<Seq<char>>, n: nat, m: nat)
    requires
        ends_within(entries, cur, n),
        path_of(entries, cur, n).len() <= m,
    ensures
        ends_within(entries, cur, m),
    decreases n,
{
    if let Some(id) = cur {
        let tail = path_of(entries, parent_in(entries, id), (n - 1) as nat);
        assert((seq![id] + tail).len() == tail.len() + 1);
        lemma_ends_at_length(entries, parent_in(entries, id), (n - 1) as nat, (m - 1) as nat);
    }
}

/// A way that ends at all has at most one id more than there are entries.
proof fn lemma_way_is_short(entries: Seq<EntryView>, cur: Option<Seq<char>>)
    requires
        has_root(entries, cur),
    ensures
        ends_within(entries, cur, entries.len() + 1),
{
    let n = choose|n: nat| ends_within(entries, cur, n);
    let p = path_of(entries, cur, n);
    if p.len() > entries.len() + 1 {
        let places = Seq::new((p.len() - 1) as nat, |i: int| place_of(entries, p[i])->Some_0);
        assert forall|i: int| 0 <= i < places.len() implies 0 <= #[trigger] places[i]
            < entries.len() by {
            lemma_indexed(entries, cur, n, i);
            lemma_place(entries, p[i]);
        }
        assert forall|i: int, j: int| 0 <= i < places.len() && 0 <= j < places.len() && i
            != j implies places[i] != places[j] by {
            lemma_indexed(entries, cur, n, i);
            lemma_indexed(entries, cur, n, j);
            lemma_place(entries, p[i]);
            lemma_place(entries, p[j]);
            if i < j {
                lemma_no_repeats(entries, cur, n, i, j);
            } else {
                lemma_no_repeats(entries, cur, n, j, i);
            }
        }
        assert(places.no_duplicates());
        let range = vstd::set_lib::set_int_range(0, entries.len() as int);
        vstd::set_lib::lemma_int_range(0, entries.len() as int);
        places.unique_seq_to_set();
        assert(places.to_set().subset_of(range)) by {
            assert forall|x: int| places.to_set().contains(x) implies range.contains(x) by {
                let i = choose|i: int| 0 <= i < places.len() && places[i] == x;
                assert(places[i] == x);
            }
        }
        vstd::set_lib::lemma_len_subset(places.to_set(), range);
        assert(false);
    }
    lemma_ends_at_length(entries, cur, n, entries.len() + 1);
}

// ---- laws -----------------------------------------------------------------------------------------

/// The current entry of a journal is always its last one; only a journal without entries has
/// none.
pub proof fn leaf_is_the_last_entry(j: Journal)
    requires
        j.wf(),
    ensures
        j@.leaf == tip(j@.entries),
        j@.leaf is None <==> j@.entries.len() == 0,
{
}

/// Appending keeps every earlier entry in its place, and the new entry is found under its id.
pub proof fn append_keeps_entries(j: JournalView, e: EntryView)
    requires
        entry::entry_id(e) is Some,
    ensures
        appended(j, e).entries.take(j.entries.len() as int) == j.entries,
        appended(j, e).leaf == entry::entry_id(e),
        place_of(appended(j, e).entries, entry::entry_id(e)->Some_0) == Some(j.entries.len() as int),
        forall|id: Seq<char>|
            Some(id) != entry::entry_id(e) ==> #[trigger] place_of(appended(j, e).entries, id)
                == place_of(j.entries, id),
{
    assert(j.entries.push(e).drop_last() =~= j.entries);
    assert(appended(j, e).entries.take(j.entries.len() as int) =~= j.entries);
}

proof fn lemma_path_unchanged(
    old_entries: Seq<EntryView>,
    e: EntryView,
    cur: Option<Seq<char>>,
    n: nat,
)
    requires
        entry::entry_id(e) is Some,
        ends_within(old_entries, cur, n),
        forall|i: int|
            0 <= i < path_of(old_entries, cur, n).len() ==> Some(
                #[trigger] path_of(old_entries, cur, n)[i],
            ) != entry::entry_id(e),
    ensures
        ends_within(old_entries.push(e), cur, n),
        path_of(old_entries.push(e), cur, n) == path_of(old_entries, cur, n),
    decreases n,
{
    if let Some(id) = cur {
        let next = parent_in(old_entries, id);
        let tail = path_of(old_entries, next, (n - 1) as nat);
        let p = seq![id] + tail;
        assert(path_of(old_entries, cur, n) == p);
        assert(p[0] == id);
        let new_entries = old_entries.push(e);
        assert(new_entries.drop_last() =~= old_entries);
        lemma_place(old_entries, id);
        assert(place_of(new_entries, id) == place_of(old_entries, id));
        assert(parent_in(new_entries, id) == next);
        assert forall|i: int| 0 <= i < tail.len() implies Some(#[trigger] tail[i])
            != entry::entry_id(e) by {
            assert(p[i + 1] == tail[i]);
        }
        lemma_path_unchanged(old_entries, e, next, (n - 1) as nat);
    }
}

/// An entry that is appended below the current one, under an id that is new to the way,
/// makes the way to the root one id longer.
pub proof fn append_extends_the_path(j: JournalView, e: EntryView)
    requires
        entry::entry_id(e) is Some,
        entry::entry_parent(e) == j.leaf,
        has_root(j.entries, j.leaf),
        !root_path(j.entries, j.leaf).contains(entry::entry_id(e)->Some_0),
    ensures
        has_root(appended(j, e).entries, appended(j, e).leaf),
        root_path(appended(j, e).entries, appended(j, e).leaf) == seq![
            entry::entry_id(e)->Some_0,
        ] + root_path(j.entries, j.leaf),
{
    let id = entry::entry_id(e)->Some_0;
    let n = (j.entries.len() + 1) as nat;
    lemma_way_is_short(j.entries, j.leaf);
    append_keeps_entries(j, e);
    let after = appended(j, e).entries;
    assert forall|i: int| 0 <= i < path_of(j.entries, j.leaf, n).len() implies Some(
        #[trigger] path_of(j.entries, j.leaf, n)[i],
    ) != entry::entry_id(e) by {
        if path_of(j.entries, j.leaf, n)[i] == id {
            assert(root_path(j.entries, j.leaf).contains(id));
        }
    }
    lemma_path_unchanged(j.entries, e, j.leaf, n);
    assert(parent_in(after, id) == j.leaf);
    assert(ends_within(after, Some(id), n + 1));
}

/// A partial last line never keeps a journal from opening: the entries before it are read.
pub proof fn partial_tail_is_dropped(lines: Seq<ReadLineView>, tail: ReadLineView)
    requires
        !tail.complete,
        tail.entry is Err,
    ensures
        read_entries(lines.push(tail)) == read_entries(lines),
{
    assert(lines.push(tail).drop_last() =~= lines);
}

/// A physical compaction keeps the newest checkpoint and all that follows it, and nothing
/// older than it.
pub proof fn compaction_keeps_the_newest_checkpoint(entries: Seq<EntryView>)
    ensures
        0 <= first_kept(entries),
        entries.len() > 0 ==> first_kept(entries) < entries.len(),
        forall|i: int|
            first_kept(entries) < i < entries.len() ==> !entry::is_checkpoint(#[trigger] entries[i]),
        first_kept(entries) > 0 ==> entry::is_checkpoint(entries[first_kept(entries)]),
    decreases entries.len(),
{
    if entries.len() > 0 && !entry::is_checkpoint(entries.last()) {
        compaction_keeps_the_newest_checkpoint(entries.drop_last());
        let rest = entries.drop_last();
        assert forall|i: int| first_kept(entries) < i < entries.len() implies !entry::is_checkpoint(
            #[trigger] entries[i],
        ) by {
            if i < rest.len() {
                assert(rest[i] == entries[i]);
            }
        }
    }
}

/// Loading puts each entry in its place: headers become the header, the last one counts, and
/// everything else is appended below, in order.
pub proof fn entries_are_loaded_in_order(j: JournalView, list: Seq<EntryView>, e: EntryView)
    ensures
        all_loaded(j, Seq::empty()) == j,
        e is SessionHeader ==> all_loaded(j, list.push(e)).header == Some(e) && all_loaded(
            j,
            list.push(e),
        ).entries == all_loaded(j, list).entries && all_loaded(j, list.push(e)).leaf == all_loaded(
            j,
            list,
        ).leaf,
        !(e is SessionHeader) ==> all_loaded(j, list.push(e)).header == all_loaded(j, list).header
            && all_loaded(j, list.push(e)).entries == all_loaded(j, list).entries.push(e)
            && all_loaded(j, list.push(e)).leaf == entry::entry_id(e),
        empty_journal().header is None && empty_journal().entries.len() == 0
            && empty_journal().leaf is None,
{
    assert(list.push(e).drop_last() =~= list);
}

/// A header is no part of the tree: appending one changes nothing.
pub proof fn headers_are_not_appended(j: JournalView, e: EntryView)
    requires
        e is SessionHeader,
    ensures
        appended(j, e) == j,
{
}

/// Entries are read line by line: an entry follows those before it, and a complete line that is
/// none fails the file with its own error, unless an earlier one did.
pub proof fn entries_are_read_line_by_line(
    lines: Seq<ReadLineView>,
    e: EntryView,
    m: Seq<char>,
    complete: bool,
)
    ensures
        read_entries(Seq::empty()) matches Ok(list) && list.len() == 0,
        read_entries(lines) matches Ok(list) ==> read_entries(
            lines.push(ReadLineView { entry: Ok(e), complete }),
        ) == Ok::<Seq<EntryView>, Seq<char>>(list.push(e)),
        read_entries(lines) is Ok ==> read_entries(
            lines.push(ReadLineView { entry: Err(m), complete: true }),
        ) == Err::<Seq<EntryView>, Seq<char>>(m),
        read_entries(lines) matches Err(first) ==> read_entries(
            lines.push(ReadLineView { entry: Ok(e), complete }),
        ) == Err::<Seq<EntryView>, Seq<char>>(first) && read_entries(
            lines.push(ReadLineView { entry: Err(m), complete }),
        ) == Err::<Seq<EntryView>, Seq<char>>(first),
{
    assert(lines.push(ReadLineView { entry: Ok(e), complete }).drop_last() =~= lines);
    assert(lines.push(ReadLineView { entry: Err(m), complete: true }).drop_last() =~= lines);
    assert(lines.push(ReadLineView { entry: Err(m), complete }).drop_last() =~= lines);
}

/// Every line of a file that is not blank is kept as it is. Only what stands behind the last
/// line feed is incomplete.
pub proof fn lines_are_kept_whole(l: Seq<char>, rest: Seq<char>, tail: Seq<char>)
    requires
        forall|i: int| 0 <= i < l.len() ==> #[trigger] l[i] != '\n',
        l.len() == 0 || l.last() != '\r',
        forall|i: int| 0 <= i < tail.len() ==> #[trigger] tail[i] != '\n',
    ensures
        file_lines(Seq::empty()).len() == 0,
        text::trimmed(l).len() > 0 && (rest.len() > 0 ==> rest.last() == '\n') ==> file_lines(
            l + seq!['\n'] + rest,
        ) == seq![LineView { text: l, complete: true }] + file_lines(rest),
        text::trimmed(l).len() == 0 && (rest.len() > 0 ==> rest.last() == '\n') ==> file_lines(
            l + seq!['\n'] + rest,
        ) == file_lines(rest),
        text::trimmed(tail).len() > 0 ==> file_lines(tail) == seq![
            LineView { text: tail, complete: false },
        ],
        text::trimmed(l).len() > 0 && text::trimmed(tail).len() > 0 ==> file_lines(
            l + seq!['\n'] + tail,
        ) == seq![LineView { text: l, complete: true }, LineView { text: tail, complete: false }],
{
    text::lines_end_at_line_feeds(l, rest);
    text::lines_end_at_line_feeds(l, tail);
    text::lines_end_at_line_feeds(tail, Seq::empty());
    let s = l + seq!['\n'] + rest;
    assert(rest.len() == 0 ==> s.last() == '\n');
    assert(rest.len() > 0 ==> s.last() == rest.last());
    if rest.len() == 0 || rest.last() == '\n' {
        lemma_kept_front(l, text::text_lines(rest), true);
        if rest.len() == 0 {
            assert(rest =~= Seq::<char>::empty());
            assert(text::text_lines(rest) =~= Seq::<Seq<char>>::empty());
            assert(kept_lines(text::text_lines(rest), true) =~= Seq::<LineView>::empty());
            assert(file_lines(rest) =~= Seq::<LineView>::empty());
        }
    }
    if tail.len() > 0 {
        assert(tail[tail.len() - 1] != '\n');
        let both = seq![l] + text::text_lines(tail);
        assert(both.drop_last() =~= seq![l]);
        assert(both.last() == tail);
        assert(seq![l].drop_last() =~= Seq::<Seq<char>>::empty());
        assert(seq![tail].drop_last() =~= Seq::<Seq<char>>::empty());
        assert((l + seq!['\n'] + tail).last() == tail.last());
        reveal_with_fuel(kept_lines, 3);
        if text::trimmed(tail).len() > 0 {
            assert(file_lines(tail) =~= seq![LineView { text: tail, complete: false }]);
            if text::trimmed(l).len() > 0 {
                assert(file_lines(l + seq!['\n'] + tail) =~= seq![
                    LineView { text: l, complete: true },
                    LineView { text: tail, complete: false },
                ]);
            }
        }
    }
}

proof fn lemma_kept_front(l: Seq<char>, lines: Seq<Seq<char>>, ended: bool)
    requires
        ended,
    ensures
        text::trimmed(l).len() > 0 ==> kept_lines(seq![l] + lines, ended) == seq![
            LineView { text: l, complete: true },
        ] + kept_lines(lines, ended),
        text::trimmed(l).len() == 0 ==> kept_lines(seq![l] + lines, ended) == kept_lines(
            lines,
            ended,
        ),
    decreases lines.len(),
{
    let all = seq![l] + lines;
    let first = seq![LineView { text: l, complete: true }];
    if lines.len() == 0 {
        assert(all.drop_last() =~= Seq::<Seq<char>>::empty());
        assert(all.last() == l);
        reveal_with_fuel(kept_lines, 2);
        assert(text::trimmed(l).len() > 0 ==> kept_lines(all, ended) =~= first + kept_lines(
            lines,
            ended,
        ));
    } else {
        assert(all.drop_last() =~= seq![l] + lines.drop_last());
        assert(all.last() == lines.last());
        lemma_kept_front(l, lines.drop_last(), true);
        let rest = kept_lines(lines.drop_last(), true);
        assert(text::trimmed(l).len() > 0 && text::trimmed(lines.last()).len() > 0 ==> kept_lines(
            all,
            ended,
        ) =~= first + kept_lines(lines, ended));
    }
}

/// The way to the root goes from the current entry to its parent and on, each id once, and ends
/// where an entry has none.
pub proof fn paths_go_from_child_to_parent(entries: Seq<EntryView>, id: Seq<char>)
    ensures
        root_path(entries, None).len() == 0,
        has_root(entries, None),
        has_root(entries, Some(id)) ==> root_path(entries, Some(id)).len() > 0 && root_path(
            entries,
            Some(id),
        )[0] == id,
        has_root(entries, Some(id)) ==> root_path(entries, Some(id)) == seq![id] + root_path(
            entries,
            parent_in(entries, id),
        ),
        place_of(entries, id) is None ==> root_path(entries, Some(id)) == seq![id],
        place_of(entries, id) matches Some(i) ==> 0 <= i < entries.len() && entry::entry_id(
            entries[i],
        ) == Some(id) && parent_in(entries, id) == entry::entry_parent(entries[i]),
{
    assert(ends_within(entries, None, 0));
    lemma_place(entries, id);
    if has_root(entries, Some(id)) {
        lemma_way_is_short(entries, Some(id));
        let n = (entries.len() + 1) as nat;
        assert(ends_within(entries, Some(id), n));
        assert(ends_within(entries, parent_in(entries, id), (n - 1) as nat));
        assert(has_root(entries, parent_in(entries, id)));
        lemma_way_is_short(entries, parent_in(entries, id));
        lemma_same_path(entries, parent_in(entries, id), n, (n - 1) as nat);
    }
    if place_of(entries, id) is None {
        reveal_with_fuel(path_of, 2);
        assert(root_path(entries, Some(id)) =~= seq![id]);
    }
}

} // verus!
