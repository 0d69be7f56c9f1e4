//! Session entries. A journal is a file of these, one per line.

use crate::json::{JVal, Json};
use crate::messages::{Message, MessageView};
use crate::text;
use vstd::prelude::*;

verus! {

/// Files touched so far, over all compactions.
#[derive(Debug)]
pub struct CompactionDetails {
    pub read_files: Vec<String>,
    pub modified_files: Vec<String>,
}

/// What a `CompactionDetails` denotes.
pub struct DetailsView {
    pub read_files: Seq<Seq<char>>,
    pub modified_files: Seq<Seq<char>>,
}

impl View for CompactionDetails {
    type V = DetailsView;

    open spec fn view(&self) -> DetailsView {
        DetailsView {
            read_files: text::strs(self.read_files@),
            modified_files: text::strs(self.modified_files@),
        }
    }
}

impl Default for CompactionDetails {
    fn default() -> (r: Self)
        ensures
            r@ == (DetailsView { read_files: Seq::empty(), modified_files: Seq::empty() }),
    {
        let r = CompactionDetails { read_files: Vec::new(), modified_files: Vec::new() };
        assert(r@.read_files =~= Seq::empty());
        assert(r@.modified_files =~= Seq::empty());
        r
    }
}

impl Clone for CompactionDetails {
    fn clone(&self) -> (r: Self)
        ensures
            r@ == self@,
    {
        CompactionDetails {
            read_files: text::clone_strings(&self.read_files),
            modified_files: text::clone_strings(&self.modified_files),
        }
    }
}

/// A line of the journal.
#[derive(Debug)]
pub enum Entry {
    SessionHeader {
        version: u32,
        id: String,
        timestamp: String,
        cwd: String,
        parent_session: Option<String>,
    },
    Message { id: String, parent_id: Option<String>, timestamp: String, message: Message },
    Compaction {
        id: String,
        parent_id: Option<String>,
        timestamp: String,
        summary: String,
        first_kept_entry_id: Option<String>,
        tokens_before: u64,
        /// self-contained checkpoint: entries before it are ignored when present
        retained_tail: Option<Json>,
        details: Option<CompactionDetails>,
    },
    BranchSummary {
        id: String,
        parent_id: Option<String>,
        timestamp: String,
        from_id: String,
        summary: String,
    },
    Custom {
        id: String,
        parent_id: Option<String>,
        timestamp: String,
        custom_type: String,
        data: Json,
    },
    Label {
        id: String,
        parent_id: Option<String>,
        timestamp: String,
        target_id: String,
        label: String,
    },
    ModelChange {
        id: String,
        parent_id: Option<String>,
        timestamp: String,
        provider: String,
        model_id: String,
    },
    ThinkingLevelChange {
        id: String,
        parent_id: Option<String>,
        timestamp: String,
        thinking_level: String,
    },
    SessionInfo { id: String, parent_id: Option<String>, timestamp: String, name: String },
}

/// What an `Entry` denotes.
pub enum EntryView {
    SessionHeader {
        version: u32,
        id: Seq<char>,
        timestamp: Seq<char>,
        cwd: Seq<char>,
        parent_session: Option<Seq<char>>,
    },
    Message {
        id: Seq<char>,
        parent_id: Option<Seq<char>>,
        timestamp: Seq<char>,
        message: MessageView,
    },
    Compaction {
        id: Seq<char>,
        parent_id: Option<Seq<char>>,
        timestamp: Seq<char>,
        summary: Seq<char>,
        first_kept_entry_id: Option<Seq<char>>,
        tokens_before: u64,
        retained_tail: Option<JVal>,
        details: Option<DetailsView>,
    },
    BranchSummary {
        id: Seq<char>,
        parent_id: Option<Seq<char>>,
        timestamp: Seq<char>,
        from_id: Seq<char>,
        summary: Seq<char>,
    },
    Custom {
        id: Seq<char>,
        parent_id: Option<Seq<char>>,
        timestamp: Seq<char>,
        custom_type: Seq<char>,
        data: JVal,
    },
    Label {
        id: Seq<char>,
        parent_id: Option<Seq<char>>,
        timestamp: Seq<char>,
        target_id: Seq<char>,
        label: Seq<char>,
    },
    ModelChange {
        id: Seq<char>,
        parent_id: Option<Seq<char>>,
        timestamp: Seq<char>,
        provider: Seq<char>,
        model_id: Seq<char>,
    },
    ThinkingLevelChange {
        id: Seq<char>,
        parent_id: Option<Seq<char>>,
        timestamp: Seq<char>,
        thinking_level: Seq<char>,
    },
    SessionInfo {
        id: Seq<char>,
        parent_id: Option<Seq<char>>,
        timestamp: Seq<char>,
        name: Seq<char>,
    },
}

impl View for Entry {
    type V = EntryView;

    open spec fn view(&self) -> EntryView {
        match self {
            Entry::SessionHeader { version, id, timestamp, cwd, parent_session } =>
                EntryView::SessionHeader {
                version: *version,
                id: id@,
                timestamp: timestamp@,
                cwd: cwd@,
                parent_session: text::opt_str(*parent_session),
            },
            Entry::Message { id, parent_id, timestamp, message } => EntryView::Message {
                id: id@,
                parent_id: text::opt_str(*parent_id),
                timestamp: timestamp@,
                message: message@,
            },
            Entry::Compaction {
                id,
                parent_id,
                timestamp,
                summary,
                first_kept_entry_id,
                tokens_before,
                retained_tail,
                details,
            } => EntryView::Compaction {
                id: id@,
                parent_id: text::opt_str(*parent_id),
                timestamp: timestamp@,
                summary: summary@,
                first_kept_entry_id: text::opt_str(*first_kept_entry_id),
                tokens_before: *tokens_before,
                retained_tail: match retained_tail {
                    Some(t) => Some(t@),
                    None => None,
                },
                details: match details {
                    Some(d) => Some(d@),
                    None => None,
                },
            },
            Entry::BranchSummary { id, parent_id, timestamp, from_id, summary } =>
                EntryView::BranchSummary {
                id: id@,
                parent_id: text::opt_str(*parent_id),
                timestamp: timestamp@,
                from_id: from_id@,
                summary: summary@,
            },
            Entry::Custom { id, parent_id, timestamp, custom_type, data } => EntryView::Custom {
                id: id@,
                parent_id: text::opt_str(*parent_id),
                timestamp: timestamp@,
                custom_type: custom_type@,
                data: data@,
            },
            Entry::Label { id, parent_id, timestamp, target_id, label } => EntryView::Label {
                id: id@,
                parent_id: text::opt_str(*parent_id),
                timestamp: timestamp@,
                target_id: target_id@,
                label: label@,
            },
            Entry::ModelChange { id, parent_id, timestamp, provider, model_id } =>
                EntryView::ModelChange {
                id: id@,
                parent_id: text::opt_str(*parent_id),
                timestamp: timestamp@,
                provider: provider@,
                model_id: model_id@,
            },
            Entry::ThinkingLevelChange { id, parent_id, timestamp, thinking_level } =>
                EntryView::ThinkingLevelChange {
                id: id@,
                parent_id: text::opt_str(*parent_id),
                timestamp: timestamp@,
                thinking_level: thinking_level@,
            },
            Entry::SessionInfo { id, parent_id, timestamp, name } => EntryView::SessionInfo {
                id: id@,
                parent_id: text::opt_str(*parent_id),
                timestamp: timestamp@,
                name: name@,
            },
        }
    }
}

/// The id of an entry; a header has none in the tree.
pub open spec fn entry_id(e: EntryView) -> Option<Seq<char>> {
    match e {
        EntryView::SessionHeader { .. } => None,
        EntryView::Message { id, .. } => Some(id),
        EntryView::Compaction { id, .. } => Some(id),
        EntryView::BranchSummary { id, .. } => Some(id),
        EntryView::Custom { id, .. } => Some(id),
        EntryView::Label { id, .. } => Some(id),
        EntryView::ModelChange { id, .. } => Some(id),
        EntryView::ThinkingLevelChange { id, .. } => Some(id),
        EntryView::SessionInfo { id, .. } => Some(id),
    }
}

/// The id of an entry's parent.
pub open spec fn entry_parent(e: EntryView) -> Option<Seq<char>> {
    match e {
        EntryView::SessionHeader { .. } => None,
        EntryView::Message { parent_id, .. } => parent_id,
        EntryView::Compaction { parent_id, .. } => parent_id,
        EntryView::BranchSummary { parent_id, .. } => parent_id,
        EntryView::Custom { parent_id, .. } => parent_id,
        EntryView::Label { parent_id, .. } => parent_id,
        EntryView::ModelChange { parent_id, .. } => parent_id,
        EntryView::ThinkingLevelChange { parent_id, .. } => parent_id,
        EntryView::SessionInfo { parent_id, .. } => parent_id,
    }
}

/// Whether an entry is a compaction that stands for all entries before it.
pub open spec fn is_checkpoint(e: EntryView) -> bool {
    e matches EntryView::Compaction { retained_tail: Some(_), .. }
}

fn opt_ref(o: &Option<String>) -> (r: Option<&str>)
    ensures
        text::opt_slice(r) == text::opt_str(*o),
{
    match o {
        Some(t) => Some(t.as_str()),
        None => None,
    }
}

impl Entry {
    /// The entry's id.
    pub fn id(&self) -> (r: Option<&str>)
        ensures
            text::opt_slice(r) == entry_id(self@),
    {
        match self {
            Entry::SessionHeader { .. } => None,
            Entry::Message { id, .. } => Some(id.as_str()),
            Entry::Compaction { id, .. } => Some(id.as_str()),
            Entry::BranchSummary { id, .. } => Some(id.as_str()),
            Entry::Custom { id, .. } => Some(id.as_str()),
            Entry::Label { id, .. } => Some(id.as_str()),
            Entry::ModelChange { id, .. } => Some(id.as_str()),
            Entry::ThinkingLevelChange { id, .. } => Some(id.as_str()),
            Entry::SessionInfo { id, .. } => Some(id.as_str()),
        }
    }

    /// The id of the entry's parent.
    pub fn parent_id(&self) -> (r: Option<&str>)
        ensures
            text::opt_slice(r) == entry_parent(self@),
    {
        match self {
            Entry::SessionHeader { .. } => None,
            Entry::Message { parent_id, .. } => opt_ref(parent_id),
            Entry::Compaction { parent_id, .. } => opt_ref(parent_id),
            Entry::BranchSummary { parent_id, .. } => opt_ref(parent_id),
            Entry::Custom { parent_id, .. } => opt_ref(parent_id),
            Entry::Label { parent_id, .. } => opt_ref(parent_id),
            Entry::ModelChange { parent_id, .. } => opt_ref(parent_id),
            Entry::ThinkingLevelChange { parent_id, .. } => opt_ref(parent_id),
            Entry::SessionInfo { parent_id, .. } => opt_ref(parent_id),
        }
    }

    /// Whether the entry is a compaction that stands for all entries before it.
    pub fn checkpoint(&self) -> (r: bool)
        ensures
            r == is_checkpoint(self@),
    {
        match self {
            Entry::Compaction { retained_tail, .. } => retained_tail.is_some(),
            _ => false,
        }
    }
}

// ---- laws ---------------------------------------------------------------------------------------

/// Every entry but a header has the id and the parent it was written with; a header has neither.
pub proof fn entries_keep_their_ids(
    id: Seq<char>,
    parent_id: Option<Seq<char>>,
    timestamp: Seq<char>,
    t: Seq<char>,
    u: Seq<char>,
    message: MessageView,
    data: JVal,
    e: EntryView,
)
    ensures
        entry_id(e) is None <==> e is SessionHeader,
        e is SessionHeader ==> entry_parent(e) is None,
        ({
            let x = EntryView::Message { id, parent_id, timestamp, message };
            entry_id(x) == Some(id) && entry_parent(x) == parent_id
        }),
        ({
            let x = EntryView::BranchSummary { id, parent_id, timestamp, from_id: t, summary: u };
            entry_id(x) == Some(id) && entry_parent(x) == parent_id
        }),
        ({
            let x = EntryView::Custom { id, parent_id, timestamp, custom_type: t, data };
            entry_id(x) == Some(id) && entry_parent(x) == parent_id
        }),
        ({
            let x = EntryView::Label { id, parent_id, timestamp, target_id: t, label: u };
            entry_id(x) == Some(id) && entry_parent(x) == parent_id
        }),
        ({
            let x = EntryView::ModelChange { id, parent_id, timestamp, provider: t, model_id: u };
            entry_id(x) == Some(id) && entry_parent(x) == parent_id
        }),
        ({
            let x = EntryView::ThinkingLevelChange { id, parent_id, timestamp, thinking_level: t };
            entry_id(x) == Some(id) && entry_parent(x) == parent_id
        }),
        ({
            let x = EntryView::SessionInfo { id, parent_id, timestamp, name: t };
            entry_id(x) == Some(id) && entry_parent(x) == parent_id
        }),
{
}

/// A compaction has its id and parent, and is a checkpoint exactly where it carries the tail
/// that it retained; nothing else is one.
pub proof fn checkpoints_carry_their_tail(
    id: Seq<char>,
    parent_id: Option<Seq<char>>,
    timestamp: Seq<char>,
    summary: Seq<char>,
    first_kept_entry_id: Option<Seq<char>>,
    tokens_before: u64,
    retained_tail: Option<JVal>,
    details: Option<DetailsView>,
    e: EntryView,
)
    ensures
        ({
            let x = EntryView::Compaction {
                id,
                parent_id,
                timestamp,
                summary,
                first_kept_entry_id,
                tokens_before,
                retained_tail,
                details,
            };
            &&& entry_id(x) == Some(id)
            &&& entry_parent(x) == parent_id
            &&& is_checkpoint(x) <==> retained_tail is Some
        }),
        !(e is Compaction) ==> !is_checkpoint(e),
{
}

} // verus!
