//! Tool contract, registry, and the bookkeeping of a parallel batch of tool calls.
//!
//! Calls are looked up in order, run concurrently, and their results come back in the
//! order of the calls.

use crate::error::{CoreError, CoreErrorView};
use crate::json::{JVal, Json};
use crate::text;
use dashmap::DashMap;
use vstd::prelude::*;
use vstd::string::*;

verus! {

/// A tool call with its decoded arguments.
#[derive(Debug)]
pub struct ToolArgs {
    pub call_id: String,
    pub name: String,
    pub arguments: Json,
}

pub type ToolExecution = ToolArgs;

/// What a `ToolArgs` denotes.
pub struct ToolArgsView {
    pub call_id: Seq<char>,
    pub name: Seq<char>,
    pub arguments: JVal,
}

impl View for ToolArgs {
    type V = ToolArgsView;

    open spec fn view(&self) -> ToolArgsView {
        ToolArgsView {
            call_id: self.call_id@,
            name: self.name@,
            arguments: self.arguments@,
        }
    }
}

impl Clone for ToolArgs {
    fn clone(&self) -> (r: Self)
        ensures
            r@ == self@,
    {
        ToolArgs {
            call_id: self.call_id.clone(),
            name: self.name.clone(),
            arguments: self.arguments.clone(),
        }
    }
}

/// What a tool gives back.
#[derive(Debug)]
pub struct ToolOutput {
    /// truncated, context-bound content
    pub content: String,
    /// where the full output is, where it was truncated
    pub full_output_path: Option<String>,
    pub is_error: bool,
}

/// What a `ToolOutput` denotes.
pub struct ToolOutputView {
    pub content: Seq<char>,
    pub full_output_path: Option<Seq<char>>,
    pub is_error: bool,
}

impl View for ToolOutput {
    type V = ToolOutputView;

    open spec fn view(&self) -> ToolOutputView {
        ToolOutputView {
            content: self.content@,
            full_output_path: text::opt_str(self.full_output_path),
            is_error: self.is_error,
        }
    }
}

impl Clone for ToolOutput {
    fn clone(&self) -> (r: Self)
        ensures
            r@ == self@,
    {
        ToolOutput {
            content: self.content.clone(),
            full_output_path: match &self.full_output_path {
                Some(p) => Some(p.clone()),
                None => None,
            },
            is_error: self.is_error,
        }
    }
}

/// The view of what a tool call ended in.
pub open spec fn result_view(r: Result<ToolOutput, CoreError>) -> Result<
    ToolOutputView,
    CoreErrorView,
> {
    match r {
        Ok(o) => Ok(o@),
        Err(e) => Err(e@),
    }
}

/// The views of the results of a batch.
pub open spec fn result_views(s: Seq<Result<ToolOutput, CoreError>>) -> Seq<
    Result<ToolOutputView, CoreErrorView>,
> {
    s.map_values(|r: Result<ToolOutput, CoreError>| result_view(r))
}

/// A tool: what it is called and how it is described to the model.
pub trait Tool {
    /// The tool's name.
    spec fn tool_name(&self) -> Seq<char>;

    /// The tool's one-line description.
    spec fn tool_description(&self) -> Seq<char>;

    /// The tool's name.
    fn name(&self) -> (r: &str)
        ensures
            r@ == self.tool_name(),
    ;

    /// One-line snippet for the system prompt.
    fn describe(&self) -> (r: String)
        ensures
            r@ == self.tool_description(),
    ;
}

/// A tool given by its name and description.
pub struct FnTool {
    name: String,
    description: String,
}

impl FnTool {
    /// A tool with the given name and description.
    pub fn new(name: String, description: String) -> (r: Self)
        ensures
            r.tool_name() == name@,
            r.tool_description() == description@,
    {
        FnTool { name, description }
    }
}

impl Tool for FnTool {
    closed spec fn tool_name(&self) -> Seq<char> {
        self.name@
    }

    closed spec fn tool_description(&self) -> Seq<char> {
        self.description@
    }

    fn name(&self) -> (r: &str) {
        self.name.as_str()
    }

    fn describe(&self) -> (r: String) {
        self.description.clone()
    }
}

// ---- the map behind the registry --------------------------------------------------------------

/// `dashmap::DashMap`, a concurrent hash map.
#[verifier::external_type_specification]
#[verifier::external_body]
#[verifier::reject_recursive_types(K)]
#[verifier::reject_recursive_types(V)]
#[verifier::reject_recursive_types(S)]
pub struct ExDashMap<K, V, S>(dashmap::DashMap<K, V, S>);

/// The pairs that a map holds.
pub uninterp spec fn pairs_of(m: DashMap<String, String>) -> Map<Seq<char>, Seq<char>>;

/// No pairs.
pub open spec fn no_pairs() -> Map<Seq<char>, Seq<char>> {
    Map::empty()
}

/// `DashMap::new`: a map without pairs.
#[verifier::external_body]
fn map_new() -> (r: DashMap<String, String>)
    ensures
        pairs_of(r) == no_pairs(),
{
    DashMap::new()
}

/// `DashMap::insert`: adds a pair, in place of one with the same key.
#[verifier::external_body]
fn map_insert(m: &mut DashMap<String, String>, key: String, value: String)
    ensures
        pairs_of(*final(m)) == pairs_of(*old(m)).insert(key@, value@),
{
    m.insert(key, value);
}

/// `DashMap::get`: a copy of the value under a key.
#[verifier::external_body]
fn map_get(m: &DashMap<String, String>, key: &str) -> (r: Option<String>)
    ensures
        text::opt_str(r) == (if pairs_of(*m).contains_key(key@) {
            Some(pairs_of(*m)[key@])
        } else {
            None
        }),
{
    m.get(key).map(|g| g.value().clone())
}

/// Whether `s` lists the pairs of `m`, each once, in whatever order.
pub open spec fn lists(s: Seq<(Seq<char>, Seq<char>)>, m: Map<Seq<char>, Seq<char>>) -> bool {
    &&& forall|i: int| 0 <= i < s.len() ==> m.contains_key((#[trigger] s[i]).0) && m[s[i].0] == s[i].1
    &&& forall|i: int, j: int|
        0 <= i < j < s.len() ==> (#[trigger] s[i]).0 != (#[trigger] s[j]).0
    &&& forall|k: Seq<char>| #[trigger]
        m.contains_key(k) ==> exists|i: int| 0 <= i < s.len() && (#[trigger] s[i]).0 == k
}

/// The views of a list of pairs.
pub open spec fn pair_views(s: Seq<(String, String)>) -> Seq<(Seq<char>, Seq<char>)> {
    s.map_values(|p: (String, String)| (p.0@, p.1@))
}

/// `DashMap::iter`: copies of all pairs, each once. The order is that of the hash table and
/// differs from map to map, so none is claimed.
#[verifier::external_body]
fn map_pairs(m: &DashMap<String, String>) -> (r: Vec<(String, String)>)
    ensures
        lists(pair_views(r@), pairs_of(*m)),
{
    m.iter().map(|e| (e.key().clone(), e.value().clone())).collect()
}

/// `DashMap::clone`: another map with the same pairs.
#[verifier::external_body]
fn map_clone(m: &DashMap<String, String>) -> (r: DashMap<String, String>)
    ensures
        pairs_of(r) == pairs_of(*m),
{
    m.clone()
}

/// The registered tools by name, each with its description.
pub struct ToolRegistry {
    tools: DashMap<String, String>,
}

impl View for ToolRegistry {
    type V = Map<Seq<char>, Seq<char>>;

    closed spec fn view(&self) -> Map<Seq<char>, Seq<char>> {
        pairs_of(self.tools)
    }
}

impl Default for ToolRegistry {
    fn default() -> (r: Self)
        ensures
            r@ == no_pairs(),
    {
        ToolRegistry { tools: map_new() }
    }
}

impl ToolRegistry {
    /// Registers a tool, in place of one with the same name.
    pub fn register<T: Tool>(&mut self, t: &T)
        ensures
            final(self)@ == old(self)@.insert(t.tool_name(), t.tool_description()),
    {
        map_insert(&mut self.tools, t.name().to_owned(), t.describe());
    }

    /// The description of the tool called `name`.
    pub fn get(&self, name: &str) -> (r: Option<String>)
        ensures
            text::opt_str(r) == (if self@.contains_key(name@) {
                Some(self@[name@])
            } else {
                None
            }),
    {
        map_get(&self.tools, name)
    }

    /// The registered names with their descriptions, in no particular order.
    pub fn pairs(&self) -> (r: Vec<(String, String)>)
        ensures
            lists(pair_views(r@), self@),
    {
        map_pairs(&self.tools)
    }

    /// The registered names, in no particular order.
    pub fn names(&self) -> (r: Vec<String>)
        ensures
            exists|s: Seq<(Seq<char>, Seq<char>)>| #[trigger]
                lists(s, self@) && text::strs(r@) == s.map_values(
                    |p: (Seq<char>, Seq<char>)| p.0,
                ),
    {
        let v = map_pairs(&self.tools);
        let mut out: Vec<String> = Vec::new();
        let mut i: usize = 0;
        while i < v.len()
            invariant
                i <= v@.len(),
                out@.len() == i,
                forall|k: int| 0 <= k < i ==> #[trigger] out@[k]@ == v@[k].0@,
            decreases v@.len() - i,
        {
            out.push(v[i].0.clone());
            i += 1;
        }
        proof {
            let s = pair_views(v@);
            assert(lists(s, self@));
            assert(text::strs(out@) =~= s.map_values(|p: (Seq<char>, Seq<char>)| p.0));
        }
        out
    }

    /// The descriptions of all tools, in no particular order.
    pub fn describe_all(&self) -> (r: Vec<String>)
        ensures
            exists|s: Seq<(Seq<char>, Seq<char>)>| #[trigger]
                lists(s, self@) && text::strs(r@) == s.map_values(
                    |p: (Seq<char>, Seq<char>)| p.1,
                ),
    {
        let v = map_pairs(&self.tools);
        let mut out: Vec<String> = Vec::new();
        let mut i: usize = 0;
        while i < v.len()
            invariant
                i <= v@.len(),
                out@.len() == i,
                forall|k: int| 0 <= k < i ==> #[trigger] out@[k]@ == v@[k].1@,
            decreases v@.len() - i,
        {
            out.push(v[i].1.clone());
            i += 1;
        }
        proof {
            let s = pair_views(v@);
            assert(lists(s, self@));
            assert(text::strs(out@) =~= s.map_values(|p: (Seq<char>, Seq<char>)| p.1));
        }
        out
    }

    /// Whether a call can run: an error where no tool goes by its name.
    pub fn preflight(&self, call: &ToolArgs) -> (r: Result<(), CoreError>)
        ensures
            (match r {
                Ok(_) => None,
                Err(e) => Some(e@),
            }) == objection(self@, call@.name),
    {
        match self.get(call.name.as_str()) {
            Some(_) => Ok(()),
            None => Err(CoreError::Tool(text::cat("unknown tool ", call.name.as_str()))),
        }
    }
}

impl Clone for ToolRegistry {
    fn clone(&self) -> (r: Self)
        ensures
            r@ == self@,
    {
        ToolRegistry { tools: map_clone(&self.tools) }
    }
}

/// What keeps a call from running: that no tool goes by its name.
pub open spec fn objection(registry: Map<Seq<char>, Seq<char>>, name: Seq<char>) -> Option<
    CoreErrorView,
> {
    if registry.contains_key(name) {
        None
    } else {
        Some(unknown_tool(name))
    }
}

/// The error of a call to a tool that is not registered.
pub open spec fn unknown_tool(name: Seq<char>) -> CoreErrorView {
    CoreErrorView::Tool("unknown tool "@ + name)
}

// ---- results of a batch -------------------------------------------------------------------------

/// The results of a batch by call: `None` where a call has not reported.
pub type SlotsView = Seq<Option<Result<ToolOutputView, CoreErrorView>>>;

/// The slots of a batch in which nothing has reported.
pub open spec fn empty_slots(n: nat) -> SlotsView {
    Seq::new(n, |i: int| None::<Result<ToolOutputView, CoreErrorView>>)
}

/// The index of the first call that has not reported; 0 where all have.
pub open spec fn first_open(s: SlotsView) -> int {
    first_open_from(s, 0)
}

/// The index of the first open slot from `i` on; 0 where there is none.
pub open spec fn first_open_from(s: SlotsView, i: int) -> int
    decreases s.len() - i,
{
    if i < 0 || i >= s.len() {
        0
    } else if s[i] is None {
        i
    } else {
        first_open_from(s, i + 1)
    }
}

/// What a slot ends in: its report, or an error where there is none.
pub open spec fn settled(o: Option<Result<ToolOutputView, CoreErrorView>>) -> Result<
    ToolOutputView,
    CoreErrorView,
> {
    match o {
        Some(r) => r,
        None => Err(CoreErrorView::Tool("task did not report"@)),
    }
}

/// Collects the results of a batch of calls, which report in the order they finish.
pub struct ResultSlots {
    by_idx: Vec<Option<Result<ToolOutput, CoreError>>>,
}

spec fn slot_view(o: Option<Result<ToolOutput, CoreError>>) -> Option<
    Result<ToolOutputView, CoreErrorView>,
> {
    match o {
        Some(r) => Some(result_view(r)),
        None => None,
    }
}

impl View for ResultSlots {
    type V = SlotsView;

    closed spec fn view(&self) -> SlotsView {
        self.by_idx@.map_values(|o: Option<Result<ToolOutput, CoreError>>| slot_view(o))
    }
}

impl ResultSlots {
    /// Slots for `n` calls.
    pub fn new(n: usize) -> (r: Self)
        ensures
            r@ == empty_slots(n as nat),
    {
        let mut by_idx: Vec<Option<Result<ToolOutput, CoreError>>> = Vec::new();
        let mut i: usize = 0;
        while i < n
            invariant
                i <= n,
                by_idx@.len() == i,
                forall|k: int| 0 <= k < i ==> #[trigger] by_idx@[k] is None,
            decreases n - i,
        {
            by_idx.push(None);
            i += 1;
        }
        let r = ResultSlots { by_idx };
        assert(r@ =~= empty_slots(n as nat));
        r
    }

    /// Call `i` has finished.
    pub fn report(&mut self, i: usize, r: Result<ToolOutput, CoreError>)
        requires
            i < old(self)@.len(),
        ensures
            final(self)@ == old(self)@.update(i as int, Some(result_view(r))),
    {
        let ghost before = self@;
        self.by_idx.set(i, Some(r));
        assert(self@ =~= before.update(i as int, Some(result_view(r))));
    }

    /// Some call's task panicked; the first call without a report gets the blame.
    pub fn panicked(&mut self, message: &str)
        requires
            old(self)@.len() > 0,
        ensures
            final(self)@ == old(self)@.update(
                first_open(old(self)@),
                Some(Err(CoreErrorView::Tool("task panicked: "@ + message@))),
            ),
            0 <= first_open(old(self)@) < old(self)@.len(),
    {
        let ghost before = self@;
        let mut i: usize = 0;
        while i < self.by_idx.len() && self.by_idx[i].is_some()
            invariant
                i <= self.by_idx@.len(),
                self@ == before,
                before.len() == self.by_idx@.len(),
                first_open(before) == first_open_from(before, i as int),
            decreases self.by_idx@.len() - i,
        {
            assert(before[i as int] == slot_view(self.by_idx@[i as int]));
            i += 1;
        }
        if i == self.by_idx.len() {
            i = 0;
        } else {
            assert(before[i as int] == slot_view(self.by_idx@[i as int]));
        }
        self.report(i, Err(CoreError::Tool(text::cat("task panicked: ", message))));
    }

    /// The results in the order of the calls.
    pub fn into_results(self) -> (r: Vec<Result<ToolOutput, CoreError>>)
        ensures
            result_views(r@) == self@.map_values(
                |o: Option<Result<ToolOutputView, CoreErrorView>>| settled(o),
            ),
    {
        let ghost all = self@;
        let mut rest = self.by_idx;
        let mut out: Vec<Result<ToolOutput, CoreError>> = Vec::new();
        let n = rest.len();
        let ghost slots = rest@;
        while rest.len() > 0
            invariant
                n == slots.len(),
                out@.len() + rest@.len() == n,
                rest@ =~= slots.skip(out@.len() as int),
                all == slots.map_values(
                    |o: Option<Result<ToolOutput, CoreError>>| slot_view(o),
                ),
                forall|k: int|
                    0 <= k < out@.len() ==> result_view(#[trigger] out@[k]) == settled(all[k]),
            decreases rest@.len(),
        {
            let ghost k = out@.len() as int;
            assert(rest@[0] == slots[k]);
            match rest.remove(0) {
                Some(r) => out.push(r),
                None => out.push(Err(CoreError::Tool("task did not report".to_owned()))),
            }
        }
        assert(result_views(out@) =~= all.map_values(
            |o: Option<Result<ToolOutputView, CoreErrorView>>| settled(o),
        ));
        out
    }
}

// ---- laws -----------------------------------------------------------------------------------------

/// The slots after a list of reports.
pub open spec fn reported(
    s: SlotsView,
    reports: Seq<(int, Result<ToolOutputView, CoreErrorView>)>,
) -> SlotsView
    decreases reports.len(),
{
    if reports.len() == 0 {
        s
    } else {
        reported(s, reports.drop_last()).update(reports.last().0, Some(reports.last().1))
    }
}

/// Whether the reports are one per call, in any order.
pub open spec fn one_each(
    reports: Seq<(int, Result<ToolOutputView, CoreErrorView>)>,
    n: nat,
) -> bool {
    &&& forall|k: int| 0 <= k < reports.len() ==> 0 <= (#[trigger] reports[k]).0 < n
    &&& forall|k: int, l: int|
        0 <= k < l < reports.len() ==> (#[trigger] reports[k]).0 != (#[trigger] reports[l]).0
}

/// Whatever the order in which calls report, each call's result stands in the call's place.
pub proof fn results_follow_the_calls(
    s: SlotsView,
    reports: Seq<(int, Result<ToolOutputView, CoreErrorView>)>,
)
    requires
        one_each(reports, s.len()),
    ensures
        reported(s, reports).len() == s.len(),
        forall|k: int|
            0 <= k < reports.len() ==> settled(reported(s, reports)[(#[trigger] reports[k]).0])
                == reports[k].1,
        forall|i: int|
            0 <= i < s.len() && (forall|k: int|
                0 <= k < reports.len() ==> (#[trigger] reports[k]).0 != i) ==> #[trigger] reported(
                s,
                reports,
            )[i] == s[i],
    decreases reports.len(),
{
    if reports.len() > 0 {
        let rest = reports.drop_last();
        assert forall|k: int| 0 <= k < rest.len() implies 0 <= (#[trigger] rest[k]).0 < s.len() by {
            assert(rest[k] == reports[k]);
        }
        assert(forall|k: int| 0 <= k < rest.len() ==> #[trigger] rest[k] == reports[k]);
        results_follow_the_calls(s, rest);
        let mid = reported(s, rest);
        let last = reports.last();
        assert forall|k: int| 0 <= k < reports.len() implies settled(
            reported(s, reports)[(#[trigger] reports[k]).0],
        ) == reports[k].1 by {
            if k < rest.len() {
                assert(rest[k] == reports[k]);
                assert(reports[k].0 != reports[reports.len() - 1].0);
            }
        }
        assert forall|i: int|
            0 <= i < s.len() && (forall|k: int|
                0 <= k < reports.len() ==> (#[trigger] reports[k]).0
                    != i) implies #[trigger] reported(s, reports)[i] == s[i] by {
            assert(reports[reports.len() - 1].0 != i);
            assert(forall|k: int| 0 <= k < rest.len() ==> (#[trigger] rest[k]).0 != i);
            assert(mid[i] == s[i]);
        }
    }
}

/// What the tasks of a batch end in, in the order they end: a call's result, or a panic that
/// names no call.
pub enum TaskEnd {
    Report(int, Result<ToolOutputView, CoreErrorView>),
    Panic(Seq<char>),
}

/// The slots after a task ended.
pub open spec fn ended(s: SlotsView, e: TaskEnd) -> SlotsView {
    match e {
        TaskEnd::Report(i, r) => s.update(i, Some(r)),
        TaskEnd::Panic(message) => s.update(
            first_open(s),
            Some(Err(CoreErrorView::Tool("task panicked: "@ + message))),
        ),
    }
}

/// The slots after a list of tasks ended.
pub open spec fn all_ended(s: SlotsView, ends: Seq<TaskEnd>) -> SlotsView
    decreases ends.len(),
{
    if ends.len() == 0 {
        s
    } else {
        ended(all_ended(s, ends.drop_last()), ends.last())
    }
}

/// Whether call `i` is among the reports.
pub open spec fn reports(ends: Seq<TaskEnd>, i: int) -> bool {
    exists|k: int|
        0 <= k < ends.len() && (#[trigger] ends[k] matches TaskEnd::Report(j, _) && j == i)
}

/// Whether the ends are those of at most `n` tasks, of which no two report for one call.
pub open spec fn one_end_each(ends: Seq<TaskEnd>, n: nat) -> bool {
    &&& ends.len() <= n
    &&& forall|k: int|
        0 <= k < ends.len() ==> (#[trigger] ends[k] matches TaskEnd::Report(i, _) ==> 0 <= i < n)
    &&& forall|k: int, l: int|
        0 <= k < l < ends.len() ==> (#[trigger] ends[k] matches TaskEnd::Report(i, _) ==> (
        #[trigger] ends[l] matches TaskEnd::Report(j, _) ==> i != j))
}

/// The number of slots that hold a result.
spec fn filled(s: SlotsView) -> nat
    decreases s.len(),
{
    if s.len() == 0 {
        0
    } else {
        filled(s.drop_last()) + (if s.last() is Some {
            1nat
        } else {
            0nat
        })
    }
}

proof fn lemma_filled_update(
    s: SlotsView,
    i: int,
    v: Option<Result<ToolOutputView, CoreErrorView>>,
)
    requires
        0 <= i < s.len(),
    ensures
        filled(s.update(i, v)) <= filled(s) + 1,
    decreases s.len(),
{
    let t = s.update(i, v);
    if i == s.len() - 1 {
        assert(t.drop_last() =~= s.drop_last());
    } else {
        assert(t.drop_last() =~= s.drop_last().update(i, v));
        lemma_filled_update(s.drop_last(), i, v);
    }
}

proof fn lemma_some_open(s: SlotsView)
    requires
        filled(s) < s.len(),
    ensures
        exists|i: int| 0 <= i < s.len() && #[trigger] s[i] is None,
    decreases s.len(),
{
    if s.last() is None {
        assert(s[s.len() - 1] is None);
    } else {
        lemma_some_open(s.drop_last());
        let i = choose|i: int| 0 <= i < s.drop_last().len() && #[trigger] s.drop_last()[i] is None;
        assert(s[i] is None);
    }
}

proof fn lemma_first_open(s: SlotsView, from: int, i: int)
    requires
        0 <= from <= i < s.len(),
        s[i] is None,
    ensures
        0 <= first_open_from(s, from) < s.len(),
        s[first_open_from(s, from)] is None,
    decreases i - from,
{
    if s[from] is Some {
        lemma_first_open(s, from + 1, i);
    }
}

proof fn lemma_none_filled(n: nat)
    ensures
        filled(empty_slots(n)) == 0,
    decreases n,
{
    if n > 0 {
        assert(empty_slots(n).drop_last() =~= empty_slots((n - 1) as nat));
        lemma_none_filled((n - 1) as nat);
    }
}

proof fn lemma_ends(n: nat, ends: Seq<TaskEnd>)
    requires
        one_end_each(ends, n),
    ensures
        all_ended(empty_slots(n), ends).len() == n,
        filled(all_ended(empty_slots(n), ends)) <= ends.len(),
        forall|k: int|
            0 <= k < ends.len() ==> (#[trigger] ends[k] matches TaskEnd::Report(i, r) ==> all_ended(
                empty_slots(n),
                ends,
            )[i] == Some(r)),
        forall|i: int|
            0 <= i < n && !reports(ends, i) ==> (#[trigger] all_ended(
                empty_slots(n),
                ends,
            )[i] matches Some(r) ==> r is Err),
    decreases ends.len(),
{
    if ends.len() == 0 {
        lemma_none_filled(n);
    } else {
        let rest = ends.drop_last();
        assert(forall|k: int| 0 <= k < rest.len() ==> #[trigger] rest[k] == ends[k]);
        lemma_ends(n, rest);
        let mid = all_ended(empty_slots(n), rest);
        let end = all_ended(empty_slots(n), ends);
        let last = ends[ends.len() - 1];
        assert(last == ends.last());
        match last {
            TaskEnd::Report(i, r) => {
                lemma_filled_update(mid, i, Some(r));
            },
            TaskEnd::Panic(message) => {
                lemma_some_open(mid);
                let i = choose|i: int| 0 <= i < mid.len() && #[trigger] mid[i] is None;
                lemma_first_open(mid, 0, i);
                lemma_filled_update(
                    mid,
                    first_open(mid),
                    Some(Err(CoreErrorView::Tool("task panicked: "@ + message))),
                );
            },
        }
        assert forall|k: int| 0 <= k < ends.len() implies (
        #[trigger] ends[k] matches TaskEnd::Report(i, r) ==> end[i] == Some(r)) by {
            if k < rest.len() {
                assert(rest[k] == ends[k]);
                if let TaskEnd::Report(i, r) = ends[k] {
                    assert(mid[i] == Some(r));
                    if let TaskEnd::Report(j, _) = last {
                        assert(ends[k] == TaskEnd::Report(i, r) && ends[ends.len() - 1] == last);
                        assert(i != j);
                    }
                }
            }
        }
        assert forall|i: int| 0 <= i < n && !reports(ends, i) implies (
        #[trigger] end[i] matches Some(r) ==> r is Err) by {
            if reports(rest, i) {
                let k = choose|k: int|
                    0 <= k < rest.len() && (#[trigger] rest[k] matches TaskEnd::Report(j, _) && j
                        == i);
                assert(ends[k] == rest[k]);
                assert(reports(ends, i));
            }
            if let TaskEnd::Report(j, _) = last {
                if j == i {
                    assert(ends[ends.len() - 1] == last);
                    assert(reports(ends, i));
                }
            }
            assert(mid[i] matches Some(r) ==> r is Err);
        }
    }
}

/// Tasks that panic spoil no other call's result: whatever the order in which tasks end, a
/// call that reported has its own result, and a call that did not is an error.
pub proof fn panics_spoil_no_result(n: nat, ends: Seq<TaskEnd>)
    requires
        one_end_each(ends, n),
    ensures
        all_ended(empty_slots(n), ends).len() == n,
        forall|k: int|
            0 <= k < ends.len() ==> (#[trigger] ends[k] matches TaskEnd::Report(i, r) ==> settled(
                all_ended(empty_slots(n), ends)[i],
            ) == r),
        forall|i: int|
            0 <= i < n && !reports(ends, i) ==> settled(
                #[trigger] all_ended(empty_slots(n), ends)[i],
            ) is Err,
{
    lemma_ends(n, ends);
}

/// Slots start open. The blame for a task that panicked goes to the first open slot: all before
/// it have reported.
pub proof fn first_open_slot_is_blamed(s: SlotsView, i: int, n: nat)
    ensures
        empty_slots(n).len() == n,
        0 <= i < n ==> empty_slots(n)[i] is None,
        0 <= i < s.len() && s[i] is None ==> 0 <= first_open(s) <= i && s[first_open(s)] is None && (
        forall|k: int| 0 <= k < first_open(s) ==> #[trigger] s[k] is Some),
        (forall|k: int| 0 <= k < s.len() ==> #[trigger] s[k] is Some) ==> first_open(s) == 0,
{
    if 0 <= i < s.len() && s[i] is None {
        lemma_first_is_first(s, 0, i);
    }
    if forall|k: int| 0 <= k < s.len() ==> #[trigger] s[k] is Some {
        lemma_none_open(s, 0);
    }
}

proof fn lemma_first_is_first(s: SlotsView, from: int, i: int)
    requires
        0 <= from <= i < s.len(),
        s[i] is None,
    ensures
        from <= first_open_from(s, from) <= i,
        s[first_open_from(s, from)] is None,
        forall|k: int| from <= k < first_open_from(s, from) ==> #[trigger] s[k] is Some,
    decreases i - from,
{
    if s[from] is Some {
        lemma_first_is_first(s, from + 1, i);
    }
}

proof fn lemma_none_open(s: SlotsView, from: int)
    requires
        0 <= from,
        forall|k: int| 0 <= k < s.len() ==> #[trigger] s[k] is Some,
    ensures
        first_open_from(s, from) == 0,
    decreases s.len() - from,
{
    if from < s.len() {
        assert(s[from] is Some);
        lemma_none_open(s, from + 1);
    }
}

/// A call that reported ends in its report, and one that did not in an error that says so; a call
/// to a tool that is not registered is told its name.
pub proof fn silence_is_an_error(r: Result<ToolOutputView, CoreErrorView>, name: Seq<char>)
    ensures
        settled(Some(r)) == r,
        settled(None) == Err::<ToolOutputView, CoreErrorView>(
            CoreErrorView::Tool("task did not report"@),
        ),
        unknown_tool(name) == CoreErrorView::Tool("unknown tool "@ + name),
        no_pairs().dom().len() == 0,
{
}

/// A list of a registry has as many pairs as the registry, and finds each name's description.
pub proof fn lists_hold_every_pair(
    s: Seq<(Seq<char>, Seq<char>)>,
    m: Map<Seq<char>, Seq<char>>,
    name: Seq<char>,
    description: Seq<char>,
)
    requires
        lists(s, m),
    ensures
        m.contains_key(name) <==> exists|i: int| 0 <= i < s.len() && (#[trigger] s[i]).0 == name,
        forall|i: int| 0 <= i < s.len() && (#[trigger] s[i]).0 == name ==> s[i].1 == m[name],
        !m.contains_key(name) ==> lists(s.push((name, description)), m.insert(name, description)),
{
    if !m.contains_key(name) {
        let t = s.push((name, description));
        let n = m.insert(name, description);
        assert forall|k: Seq<char>| #[trigger] n.contains_key(k) implies exists|i: int|
            0 <= i < t.len() && (#[trigger] t[i]).0 == k by {
            if k == name {
                assert(t[s.len() as int].0 == k);
            } else {
                assert(m.contains_key(k));
                let i = choose|i: int| 0 <= i < s.len() && (#[trigger] s[i]).0 == k;
                assert(t[i].0 == k);
            }
        }
    }
}

/// A call runs exactly where a tool is registered under its name; another is refused by name.
pub proof fn registered_tools_run(
    registry: Map<Seq<char>, Seq<char>>,
    name: Seq<char>,
    description: Seq<char>,
)
    ensures
        objection(registry.insert(name, description), name) is None,
        objection(registry.remove(name), name) == Some(
            CoreErrorView::Tool("unknown tool "@ + name),
        ),
{
}

} // verus!
