//! The message composer: the replies and attachments being prepared, the
//! autocomplete trigger, typing notices, and what a key press in the text
//! box does.

use vstd::prelude::*;
use indexmap::IndexMap;
use crate::text::{str_eq, has_prefix, starts_with, is_ws, is_whitespace, chars_of, string_of, concat};

verus! {

// ---------------------------------------------------------------------------
// Replies
// ---------------------------------------------------------------------------

/// A message being replied to, and whether its author is mentioned.
#[derive(Clone, Debug, PartialEq)]
pub struct ReplyIntent {
    pub message_id: String,
    pub mention: bool,
}

impl View for ReplyIntent {
    type V = (Seq<char>, bool);

    open spec fn view(&self) -> (Seq<char>, bool) {
        (self.message_id@, self.mention)
    }
}

/// A reply as it is sent with a message.
#[derive(Clone, Debug, PartialEq)]
pub struct OutgoingReply {
    pub id: String,
    pub mention: bool,
    pub fail_if_not_exists: Option<bool>,
}

pub open spec fn replies_view(s: Seq<ReplyIntent>) -> Seq<(Seq<char>, bool)> {
    s.map_values(|r: ReplyIntent| r@)
}

/// No message is replied to twice.
pub open spec fn ids_unique(s: Seq<(Seq<char>, bool)>) -> bool {
    forall|i: int, j: int| 0 <= i < s.len() && 0 <= j < s.len() && i != j ==> s[i].0 != s[j].0
}

/// Some reply is to message `id`.
pub open spec fn has_reply(s: Seq<(Seq<char>, bool)>, id: Seq<char>) -> bool {
    exists|k: int| 0 <= k < s.len() && s[k].0 == id
}

/// The replies after adding one to `id`: a message already replied to is
/// not added again.
pub open spec fn spec_add_reply(s: Seq<(Seq<char>, bool)>, id: Seq<char>, mention: bool) -> Seq<(Seq<char>, bool)> {
    if has_reply(s, id) {
        s
    } else {
        s.push((id, mention))
    }
}

/// The replies with the mention of the reply to `id` switched.
pub open spec fn spec_toggle_mention(s: Seq<(Seq<char>, bool)>, id: Seq<char>) -> Seq<(Seq<char>, bool)> {
    Seq::new(s.len(), |k: int| if s[k].0 == id { (s[k].0, !s[k].1) } else { s[k] })
}

/// The replies without the one to `id`.
pub open spec fn spec_remove_reply(s: Seq<(Seq<char>, bool)>, id: Seq<char>) -> Seq<(Seq<char>, bool)> {
    s.filter(other_than(id))
}

/// The test that a reply is to some message other than `id`.
pub open spec fn other_than(id: Seq<char>) -> spec_fn((Seq<char>, bool)) -> bool {
    |r: (Seq<char>, bool)| r.0 != id
}

/// The replies being prepared for the next message.
pub struct ReplyController {
    replies: Vec<ReplyIntent>,
}

impl View for ReplyController {
    type V = Seq<(Seq<char>, bool)>;

    closed spec fn view(&self) -> Seq<(Seq<char>, bool)> {
        replies_view(self.replies@)
    }
}

impl ReplyController {
    /// Each message is replied to at most once.
    pub open spec fn wf(&self) -> bool {
        ids_unique(self@)
    }

    /// No replies.
    pub fn new() -> (r: ReplyController)
        ensures
            r.wf(),
            r@ == Seq::<(Seq<char>, bool)>::empty(),
    {
        let r = ReplyController { replies: Vec::new() };
        proof {
            assert(r@ =~= Seq::<(Seq<char>, bool)>::empty());
        }
        r
    }

    /// Whether no reply is prepared.
    pub fn is_empty(&self) -> (r: bool)
        ensures
            r == (self@.len() == 0),
    {
        self.replies.len() == 0
    }

    /// The replies, in the order they were added.
    pub fn get_replies(&self) -> (r: Vec<ReplyIntent>)
        ensures
            replies_view(r@) == self@,
    {
        let mut out: Vec<ReplyIntent> = Vec::new();
        let mut i: usize = 0;
        while i < self.replies.len()
            invariant
                i <= self.replies.len(),
                replies_view(out@) == replies_view(self.replies@).take(i as int),
            decreases self.replies.len() - i,
        {
            let ghost before = out@;
            let r = ReplyIntent {
                message_id: self.replies[i].message_id.clone(),
                mention: self.replies[i].mention,
            };
            out.push(r);
            proof {
                assert(out@ == before.push(r));
                assert(replies_view(out@) =~= replies_view(before).push(r@));
                assert(replies_view(out@) =~= replies_view(self.replies@).take(i + 1));
            }
            i = i + 1;
        }
        proof {
            assert(replies_view(self.replies@).take(i as int) =~= replies_view(self.replies@));
        }
        out
    }

    /// Switches whether the author of message `message_id` is mentioned.
    pub fn toggle_mention(&mut self, message_id: &str)
        requires
            old(self).wf(),
        ensures
            final(self).wf(),
            final(self)@ == spec_toggle_mention(old(self)@, message_id@),
    {
        let ghost s = self@;
        let mut i: usize = 0;
        let mut found: bool = false;
        while i < self.replies.len()
            invariant_except_break
                !found,
                i <= self.replies.len(),
                self@ == s,
                forall|k: int| 0 <= k < i ==> s[k].0 != message_id@,
            ensures
                i <= self.replies.len(),
                self@ == s,
                forall|k: int| 0 <= k < i ==> s[k].0 != message_id@,
                found ==> i < self.replies.len() && s[i as int].0 == message_id@,
                !found ==> i == self.replies.len(),
            decreases self.replies.len() - i,
        {
            if str_eq(self.replies[i].message_id.as_str(), message_id) {
                found = true;
                break;
            }
            i = i + 1;
        }
        if found {
            let flipped = !self.replies[i].mention;
            let id = self.replies[i].message_id.clone();
            self.replies.set(i, ReplyIntent { message_id: id, mention: flipped });
            proof {
                assert forall|k: int| 0 <= k < s.len() && k != i implies s[k].0 != message_id@ by {
                    assert(s[i as int].0 == message_id@);
                }
            }
        }
        proof {
            assert(self@ =~= spec_toggle_mention(s, message_id@));
        }
    }

    /// Adds a reply to message `message_id`, unless that message is already
    /// replied to.
    pub fn add_reply(&mut self, message_id: String, mention: bool)
        requires
            old(self).wf(),
        ensures
            final(self).wf(),
            final(self)@ == spec_add_reply(old(self)@, message_id@, mention),
    {
        let ghost s = self@;
        let mut i: usize = 0;
        while i < self.replies.len()
            invariant
                i <= self.replies.len(),
                self@ == s,
                ids_unique(s),
                forall|k: int| 0 <= k < i ==> s[k].0 != message_id@,
            decreases self.replies.len() - i,
        {
            if str_eq(self.replies[i].message_id.as_str(), message_id.as_str()) {
                proof {
                    assert(s[i as int].0 == message_id@);
                }
                return;
            }
            i = i + 1;
        }
        self.replies.push(ReplyIntent { message_id, mention });
        proof {
            assert(self@ =~= s.push((message_id@, mention)));
        }
    }

    /// Drops the reply to message `message_id`.
    pub fn remove_reply(&mut self, message_id: &str)
        requires
            old(self).wf(),
        ensures
            final(self).wf(),
            final(self)@ == spec_remove_reply(old(self)@, message_id@),
    {
        let ghost s = self@;
        let mut kept: Vec<ReplyIntent> = Vec::new();
        let mut i: usize = 0;
        while i < self.replies.len()
            invariant
                i <= self.replies.len(),
                self@ == s,
                ids_unique(s),
                replies_view(kept@) == spec_remove_reply(s.take(i as int), message_id@),
                ids_unique(replies_view(kept@)),
                forall|k: int| 0 <= k < kept@.len() ==> exists|j: int| 0 <= j < i && #[trigger] replies_view(kept@)[k] == s[j],
            decreases self.replies.len() - i,
        {
            proof {
                assert(s.take(i + 1).drop_last() =~= s.take(i as int));
                reveal_with_fuel(Seq::filter, 1);
            }
            if !str_eq(self.replies[i].message_id.as_str(), message_id) {
                let ghost before = replies_view(kept@);
                let r = ReplyIntent {
                    message_id: self.replies[i].message_id.clone(),
                    mention: self.replies[i].mention,
                };
                kept.push(r);
                proof {
                    assert(replies_view(kept@) =~= before.push(s[i as int]));
                    assert(replies_view(kept@) =~= spec_remove_reply(s.take(i as int), message_id@).push(s[i as int]));
                    assert forall|k: int| 0 <= k < before.len() implies before[k].0 != s[i as int].0 by {
                        let j = choose|j: int| 0 <= j < i && before[k] == s[j];
                        assert(replies_view(kept@)[k] == before[k]);
                    }
                    assert forall|k: int| 0 <= k < kept@.len() implies exists|j: int| 0 <= j < i + 1 && #[trigger] replies_view(kept@)[k] == s[j] by {
                        if k < before.len() {
                            assert(replies_view(kept@)[k] == before[k]);
                        } else {
                            assert(replies_view(kept@)[k] == s[i as int]);
                        }
                    }
                }
            }
            i = i + 1;
        }
        proof {
            assert(s.take(i as int) =~= s);
        }
        self.replies = kept;
    }

    /// The replies as they are sent, leaving none prepared.
    pub fn take_replies(&mut self) -> (r: Vec<OutgoingReply>)
        requires
            old(self).wf(),
        ensures
            final(self).wf(),
            final(self)@ == Seq::<(Seq<char>, bool)>::empty(),
            r@.len() == old(self)@.len(),
            forall|k: int|
                0 <= k < r@.len() ==> r@[k].id@ == old(self)@[k].0 && r@[k].mention == old(self)@[k].1
                    && r@[k].fail_if_not_exists == Some(true),
    {
        let ghost s = self@;
        let mut taken: Vec<ReplyIntent> = Vec::new();
        std::mem::swap(&mut taken, &mut self.replies);
        let mut out: Vec<OutgoingReply> = Vec::new();
        let mut i: usize = 0;
        while i < taken.len()
            invariant
                i <= taken.len(),
                replies_view(taken@) == s,
                out@.len() == i,
                forall|k: int|
                    0 <= k < i ==> out@[k].id@ == s[k].0 && out@[k].mention == s[k].1
                        && out@[k].fail_if_not_exists == Some(true),
            decreases taken.len() - i,
        {
            let ghost before = out@;
            let o = OutgoingReply {
                id: taken[i].message_id.clone(),
                mention: taken[i].mention,
                fail_if_not_exists: Some(true),
            };
            out.push(o);
            proof {
                assert(out@ == before.push(o));
                assert(taken@[i as int]@ == s[i as int]);
                assert forall|k: int| 0 <= k < i + 1 implies out@[k].id@ == s[k].0 && out@[k].mention == s[k].1
                    && out@[k].fail_if_not_exists == Some(true) by {
                    if k < i {
                        assert(out@[k] == before[k]);
                    }
                }
            }
            i = i + 1;
        }
        proof {
            assert(self@ =~= Seq::<(Seq<char>, bool)>::empty());
        }
        out
    }
}

} // verus!

verus! {

// ---------------------------------------------------------------------------
// Attachments
// ---------------------------------------------------------------------------

/// A file attached to the next message.
#[derive(Debug, PartialEq)]
pub struct Attachment {
    pub id: u64,
    pub filename: String,
    pub spoiler: bool,
    pub contents: Vec<u8>,
}

/// An attachment as plain values: id, file name, spoiler flag, bytes.
pub type AttachmentV = (u64, Seq<char>, bool, Seq<u8>);

impl View for Attachment {
    type V = AttachmentV;

    open spec fn view(&self) -> AttachmentV {
        (self.id, self.filename@, self.spoiler, self.contents@)
    }
}

#[verifier::external_type_specification]
#[verifier::external_body]
#[verifier::reject_recursive_types(K)]
#[verifier::reject_recursive_types(V)]
#[verifier::reject_recursive_types(S)]
pub struct ExIndexMap<K, V, S>(IndexMap<K, V, S>);

/// The entries of an `IndexMap` of attachments, in its order: each key with
/// its attachment.
pub uninterp spec fn attachment_entries(m: IndexMap<u64, Attachment>) -> Seq<(u64, AttachmentV)>;

/// Some entry of `s` has key `key`.
pub open spec fn has_key(s: Seq<(u64, AttachmentV)>, key: u64) -> bool {
    exists|k: int| 0 <= k < s.len() && s[k].0 == key
}

/// The position of the entry with key `key` (the first, should there be two).
pub open spec fn key_index(s: Seq<(u64, AttachmentV)>, key: u64) -> int {
    choose|k: int| 0 <= k < s.len() && s[k].0 == key && forall|j: int| 0 <= j < k ==> s[j].0 != key
}

proof fn lemma_key_index(s: Seq<(u64, AttachmentV)>, key: u64)
    requires
        has_key(s, key),
    ensures
        0 <= key_index(s, key) < s.len(),
        s[key_index(s, key)].0 == key,
        forall|j: int| 0 <= j < key_index(s, key) ==> s[j].0 != key,
    decreases s.len(),
{
    let d = s.drop_last();
    let m: int = if has_key(d, key) {
        lemma_key_index(d, key);
        let m = key_index(d, key);
        assert forall|j: int| 0 <= j < m implies s[j].0 != key by {
            assert(s[j] == d[j]);
        }
        assert(s[m] == d[m]);
        m
    } else {
        let m = s.len() - 1;
        assert forall|j: int| 0 <= j < m implies s[j].0 != key by {
            assert(s[j] == d[j]);
        }
        let w = choose|k: int| 0 <= k < s.len() && s[k].0 == key;
        if w < m {
            assert(d[w] == s[w]);
        }
        m
    };
    assert(0 <= m < s.len() && s[m].0 == key && forall|j: int| 0 <= j < m ==> s[j].0 != key);
}

/// `IndexMap::new`: an empty map.
#[verifier::external_body]
fn attachment_map_new() -> (m: IndexMap<u64, Attachment>)
    ensures
        attachment_entries(m) == Seq::<(u64, AttachmentV)>::empty(),
{
    IndexMap::new()
}

/// `IndexMap::len`: the number of entries.
#[verifier::external_body]
fn attachment_map_len(m: &IndexMap<u64, Attachment>) -> (n: usize)
    ensures
        n == attachment_entries(*m).len(),
{
    m.len()
}

/// `IndexMap::get_index`: the entry at position `index`, if there is one.
#[verifier::external_body]
fn attachment_map_get_index(m: &IndexMap<u64, Attachment>, index: usize) -> (r: Option<(&u64, &Attachment)>)
    ensures
        r is Some == (index < attachment_entries(*m).len()),
        r is Some ==> *r.unwrap().0 == attachment_entries(*m)[index as int].0
            && r.unwrap().1@ == attachment_entries(*m)[index as int].1,
{
    m.get_index(index)
}

/// `IndexMap::get`: the attachment under `key`, if there is one.
#[verifier::external_body]
fn attachment_map_get(m: &IndexMap<u64, Attachment>, key: u64) -> (r: Option<&Attachment>)
    ensures
        r is Some == has_key(attachment_entries(*m), key),
        r is Some ==> r.unwrap()@ == attachment_entries(*m)[key_index(attachment_entries(*m), key)].1,
{
    m.get(&key)
}

/// `IndexMap::insert`: a key already present keeps its place and takes the
/// new value; a new key goes last.
#[verifier::external_body]
fn attachment_map_insert(m: &mut IndexMap<u64, Attachment>, key: u64, value: Attachment) -> (r: Option<Attachment>)
    ensures
        has_key(attachment_entries(*old(m)), key) ==> attachment_entries(*final(m)) == attachment_entries(*old(m)).update(
            key_index(attachment_entries(*old(m)), key),
            (key, value@),
        ),
        !has_key(attachment_entries(*old(m)), key) ==> attachment_entries(*final(m)) == attachment_entries(*old(m)).push((key, value@)),
        r is Some == has_key(attachment_entries(*old(m)), key),
        r is Some ==> r.unwrap()@ == attachment_entries(*old(m))[key_index(attachment_entries(*old(m)), key)].1,
{
    m.insert(key, value)
}

/// `IndexMap::shift_remove`: drops the entry under `key`, keeping the order
/// of the others.
#[verifier::external_body]
fn attachment_map_shift_remove(m: &mut IndexMap<u64, Attachment>, key: u64) -> (r: Option<Attachment>)
    ensures
        has_key(attachment_entries(*old(m)), key) ==> attachment_entries(*final(m)) == attachment_entries(*old(m)).remove(
            key_index(attachment_entries(*old(m)), key),
        ),
        !has_key(attachment_entries(*old(m)), key) ==> attachment_entries(*final(m)) == attachment_entries(*old(m)),
        r is Some == has_key(attachment_entries(*old(m)), key),
        r is Some ==> r.unwrap()@ == attachment_entries(*old(m))[key_index(attachment_entries(*old(m)), key)].1,
{
    m.shift_remove(&key)
}

/// The entries' keys are distinct and each is the id of its attachment.
pub open spec fn entries_wf(s: Seq<(u64, AttachmentV)>) -> bool {
    &&& forall|i: int, j: int| 0 <= i < s.len() && 0 <= j < s.len() && i != j ==> s[i].0 != s[j].0
    &&& forall|i: int| 0 <= i < s.len() ==> s[i].0 == s[i].1.0
}

/// The attachments in order after removing the one with id `id`.
pub open spec fn spec_remove_attachment(s: Seq<(u64, AttachmentV)>, id: u64) -> Seq<(u64, AttachmentV)> {
    if has_key(s, id) { s.remove(key_index(s, id)) } else { s }
}

/// The attachments with the spoiler flag of the one with id `id` switched.
pub open spec fn spec_toggle_spoiler(s: Seq<(u64, AttachmentV)>, id: u64) -> Seq<(u64, AttachmentV)> {
    if has_key(s, id) {
        let k = key_index(s, id);
        let a = s[k].1;
        s.update(k, (id, (a.0, a.1, !a.2, a.3)))
    } else {
        s
    }
}

/// The attachments after adding `a`: one with the same id is replaced in
/// place, otherwise `a` goes last.
pub open spec fn spec_put_attachment(s: Seq<(u64, AttachmentV)>, a: AttachmentV) -> Seq<(u64, AttachmentV)> {
    if has_key(s, a.0) { s.update(key_index(s, a.0), (a.0, a)) } else { s.push((a.0, a)) }
}

proof fn lemma_unique_index(s: Seq<(u64, AttachmentV)>, id: u64, k: int)
    requires
        entries_wf(s),
        0 <= k < s.len(),
        s[k].0 == id,
    ensures
        has_key(s, id),
        key_index(s, id) == k,
{
    lemma_key_index(s, id);
}

/// The attachments of the next message, by id, in the order they were added.
pub struct AttachmentController {
    attachments: IndexMap<u64, Attachment>,
}

impl View for AttachmentController {
    type V = Seq<(u64, AttachmentV)>;

    closed spec fn view(&self) -> Seq<(u64, AttachmentV)> {
        attachment_entries(self.attachments)
    }
}

impl AttachmentController {
    /// Ids are unique, and each attachment is filed under its own id.
    pub open spec fn wf(&self) -> bool {
        entries_wf(self@)
    }

    /// No attachments.
    pub fn new() -> (r: AttachmentController)
        ensures
            r.wf(),
            r@ == Seq::<(u64, AttachmentV)>::empty(),
    {
        AttachmentController { attachments: attachment_map_new() }
    }

    /// Whether nothing is attached.
    pub fn is_empty(&self) -> (r: bool)
        ensures
            r == (self@.len() == 0),
    {
        attachment_map_len(&self.attachments) == 0
    }

    /// Whether something is attached.
    pub fn not_empty(&self) -> (r: bool)
        ensures
            r == (self@.len() > 0),
    {
        !self.is_empty()
    }

    /// Copies of the attachments, in order.
    pub fn get_attachments(&self) -> (r: Vec<Attachment>)
        ensures
            r@.len() == self@.len(),
            forall|k: int| 0 <= k < r@.len() ==> #[trigger] r@[k]@ == self@[k].1,
    {
        let n = attachment_map_len(&self.attachments);
        let mut out: Vec<Attachment> = Vec::new();
        let mut i: usize = 0;
        while i < n
            invariant
                i <= n,
                n == self@.len(),
                out@.len() == i,
                forall|k: int| 0 <= k < i ==> #[trigger] out@[k]@ == self@[k].1,
            decreases n - i,
        {
            match attachment_map_get_index(&self.attachments, i) {
                Some((_, a)) => {
                    out.push(copy_attachment(a));
                },
                None => {},
            }
            i = i + 1;
        }
        out
    }

    /// Drops the attachment with id `id`.
    pub fn remove(&mut self, id: u64)
        requires
            old(self).wf(),
        ensures
            final(self).wf(),
            final(self)@ == spec_remove_attachment(old(self)@, id),
    {
        let ghost s = self@;
        let _ = attachment_map_shift_remove(&mut self.attachments, id);
        proof {
            if has_key(s, id) {
                lemma_key_index(s, id);
                let k = key_index(s, id);
                assert forall|i: int, j: int| 0 <= i < self@.len() && 0 <= j < self@.len() && i != j implies self@[i].0 != self@[j].0 by {
                    let a = if i < k { i } else { i + 1 };
                    let b = if j < k { j } else { j + 1 };
                    assert(self@[i] == s[a] && self@[j] == s[b]);
                }
                assert forall|i: int| 0 <= i < self@.len() implies self@[i].0 == self@[i].1.0 by {
                    let a = if i < k { i } else { i + 1 };
                    assert(self@[i] == s[a]);
                }
            }
        }
    }

    /// Hands over every attachment, leaving none.
    pub fn take(&mut self) -> (r: IndexMap<u64, Attachment>)
        requires
            old(self).wf(),
        ensures
            final(self).wf(),
            final(self)@ == Seq::<(u64, AttachmentV)>::empty(),
            attachment_entries(r) == old(self)@,
    {
        let mut taken = attachment_map_new();
        std::mem::swap(&mut taken, &mut self.attachments);
        taken
    }

    /// Switches whether the attachment with id `id` is marked as a spoiler.
    pub fn toggle_spoiler(&mut self, id: u64)
        requires
            old(self).wf(),
        ensures
            final(self).wf(),
            final(self)@ == spec_toggle_spoiler(old(self)@, id),
    {
        let ghost s = self@;
        let flipped = match attachment_map_get(&self.attachments, id) {
            Some(a) => {
                let mut c = copy_attachment(a);
                c.spoiler = !c.spoiler;
                Some(c)
            },
            None => None,
        };
        match flipped {
            Some(c) => {
                proof {
                    lemma_key_index(s, id);
                }
                let _ = attachment_map_insert(&mut self.attachments, id, c);
                proof {
                    let k = key_index(s, id);
                    assert(s[k].1.0 == id);
                    assert(self@ =~= spec_toggle_spoiler(s, id));
                }
            },
            None => {},
        }
    }

    /// Attaches `attachment` under its id; one already filed under that id
    /// is replaced in place.
    pub fn put(&mut self, attachment: Attachment)
        requires
            old(self).wf(),
        ensures
            final(self).wf(),
            final(self)@ == spec_put_attachment(old(self)@, attachment@),
    {
        let ghost s = self@;
        let ghost a = attachment@;
        let id = attachment.id;
        proof {
            if has_key(s, id) {
                lemma_key_index(s, id);
            }
        }
        let _ = attachment_map_insert(&mut self.attachments, id, attachment);
        proof {
            if !has_key(s, id) {
                assert forall|i: int| 0 <= i < s.len() implies s[i].0 != id by {}
            }
        }
    }
}

/// A copy of `a`, field by field.
fn copy_attachment(a: &Attachment) -> (r: Attachment)
    ensures
        r@ == a@,
{
    Attachment { id: a.id, filename: a.filename.clone(), spoiler: a.spoiler, contents: a.contents.clone() }
}

} // verus!

verus! {

// ---------------------------------------------------------------------------
// Spoiler file names
// ---------------------------------------------------------------------------

/// The file-name prefix that marks an attachment as a spoiler.
pub open spec fn spoiler_prefix() -> Seq<char> {
    seq!['S', 'P', 'O', 'I', 'L', 'E', 'R', '_']
}

/// A picked file's name split into the name shown and the spoiler flag: a
/// leading `SPOILER_` is taken off and sets the flag.
pub open spec fn spec_split_spoiler(name: Seq<char>) -> (Seq<char>, bool) {
    if has_prefix(name, spoiler_prefix()) {
        (name.skip(spoiler_prefix().len() as int), true)
    } else {
        (name, false)
    }
}

/// The name a file is uploaded under: `SPOILER_` in front for a spoiler.
pub open spec fn spec_upload_name(filename: Seq<char>, spoiler: bool) -> Seq<char> {
    if spoiler {
        spoiler_prefix() + filename
    } else {
        filename
    }
}

/// Splits a picked file's name into the name shown and the spoiler flag.
pub fn split_spoiler_name(file_name: &str) -> (r: (String, bool))
    ensures
        (r.0@, r.1) == spec_split_spoiler(file_name@),
{
    let prefix = "SPOILER_";
    proof {
        reveal_strlit("SPOILER_");
        assert(prefix@ =~= spoiler_prefix());
    }
    if starts_with(file_name, prefix) {
        let v = chars_of(file_name);
        let rest = string_of(&v[8..v.len()]);
        proof {
            assert(rest@ =~= file_name@.skip(8));
        }
        (rest, true)
    } else {
        (string_of(chars_of(file_name).as_slice()), false)
    }
}

impl Attachment {
    /// The name this attachment is uploaded under.
    pub fn upload_name(&self) -> (r: String)
        ensures
            r@ == spec_upload_name(self.filename@, self.spoiler),
    {
        if self.spoiler {
            let prefix = "SPOILER_";
            proof {
                reveal_strlit("SPOILER_");
                assert(prefix@ =~= spoiler_prefix());
            }
            concat(prefix, self.filename.as_str())
        } else {
            self.filename.clone()
        }
    }

    /// Drops this attachment from `controller`.
    pub fn remove(&self, controller: &mut AttachmentController)
        requires
            old(controller).wf(),
        ensures
            final(controller).wf(),
            final(controller)@ == spec_remove_attachment(old(controller)@, self.id),
    {
        controller.remove(self.id);
    }

    /// Switches, in `controller`, whether this attachment is a spoiler.
    pub fn toggle_spoiler(&self, controller: &mut AttachmentController)
        requires
            old(controller).wf(),
        ensures
            final(controller).wf(),
            final(controller)@ == spec_toggle_spoiler(old(controller)@, self.id),
    {
        controller.toggle_spoiler(self.id);
    }
}

/// A random attachment id (`rand::random`).
#[verifier::external_body]
fn random_id() -> (r: u64) {
    rand::random()
}

impl AttachmentController {
    /// Attaches a picked file under id `id`: its name is split into the name
    /// shown and the spoiler flag.
    pub fn attach(&mut self, id: u64, file_name: &str, contents: Vec<u8>)
        requires
            old(self).wf(),
        ensures
            final(self).wf(),
            final(self)@ == spec_put_attachment(
                old(self)@,
                (id, spec_split_spoiler(file_name@).0, spec_split_spoiler(file_name@).1, contents@),
            ),
    {
        let (filename, spoiler) = split_spoiler_name(file_name);
        self.put(Attachment { id, filename, spoiler, contents });
    }

    /// Attaches a picked file under a fresh random id, which it returns.
    pub fn add_file(&mut self, file_name: &str, contents: Vec<u8>) -> (id: u64)
        requires
            old(self).wf(),
        ensures
            final(self).wf(),
            final(self)@ == spec_put_attachment(
                old(self)@,
                (id, spec_split_spoiler(file_name@).0, spec_split_spoiler(file_name@).1, contents@),
            ),
    {
        let id = random_id();
        self.attach(id, file_name, contents);
        id
    }
}

/// A file picked under any name is uploaded under that same name: taking
/// `SPOILER_` off to set the flag and putting it back for upload undo each
/// other.
pub proof fn law_upload_name_restores_picked_name(name: Seq<char>)
    ensures
        spec_upload_name(spec_split_spoiler(name).0, spec_split_spoiler(name).1) == name,
{
    if has_prefix(name, spoiler_prefix()) {
        assert(spoiler_prefix() + name.skip(8) =~= name);
    }
}

/// Splitting the upload name of an attachment gives back its name and flag,
/// unless it is no spoiler and its own name starts with `SPOILER_`.
pub proof fn law_split_undoes_upload_name(filename: Seq<char>, spoiler: bool)
    requires
        spoiler || !has_prefix(filename, spoiler_prefix()),
    ensures
        spec_split_spoiler(spec_upload_name(filename, spoiler)) == (filename, spoiler),
{
    if spoiler {
        let n = spoiler_prefix() + filename;
        assert(n.subrange(0, 8) =~= spoiler_prefix());
        assert(n.skip(8) =~= filename);
    }
}

} // verus!

verus! {

// ---------------------------------------------------------------------------
// Autocomplete trigger
// ---------------------------------------------------------------------------

/// What an autocomplete popup offers.
#[derive(Debug, PartialEq, Eq, Clone, Copy, Structural)]
pub enum AutocompleteType {
    User,
    Channel,
    Emoji,
    Role,
}

/// Where the last word of `s` starts: just after its last white space.
pub open spec fn word_start(s: Seq<char>) -> int
    decreases s.len(),
{
    if s.len() == 0 {
        0
    } else if is_ws(s.last()) {
        s.len() as int
    } else {
        word_start(s.drop_last())
    }
}

/// The run of non-white-space characters that ends `s`.
pub open spec fn trailing_word(s: Seq<char>) -> Seq<char> {
    s.subrange(word_start(s), s.len() as int)
}

/// Which popup the text before the cursor calls for, and its query: none
/// when the text ends in white space; otherwise by the first character of
/// the last word, `@` for users, and in a server `#` for channels and `%`
/// for roles; the query is the rest of that word.
pub open spec fn spec_autocomplete_trigger(section: Seq<char>, is_server: bool) -> Option<(AutocompleteType, Seq<char>)> {
    if section.len() == 0 || is_ws(section.last()) {
        None
    } else {
        let w = trailing_word(section);
        if w[0] == '@' {
            Some((AutocompleteType::User, w.drop_first()))
        } else if w[0] == '#' && is_server {
            Some((AutocompleteType::Channel, w.drop_first()))
        } else if w[0] == '%' && is_server {
            Some((AutocompleteType::Role, w.drop_first()))
        } else {
            None
        }
    }
}

proof fn lemma_word_start(s: Seq<char>)
    ensures
        0 <= word_start(s) <= s.len(),
        forall|k: int| word_start(s) <= k < s.len() ==> !is_ws(#[trigger] s[k]),
        word_start(s) > 0 ==> is_ws(s[word_start(s) - 1]),
    decreases s.len(),
{
    if s.len() > 0 && !is_ws(s.last()) {
        lemma_word_start(s.drop_last());
        assert forall|k: int| word_start(s) <= k < s.len() implies !is_ws(#[trigger] s[k]) by {
            if k < s.len() - 1 {
                assert(s[k] == s.drop_last()[k]);
            }
        }
        if word_start(s) > 0 {
            assert(s[word_start(s) - 1] == s.drop_last()[word_start(s) - 1]);
        }
    }
}

proof fn lemma_word_start_back(s: Seq<char>, j: int)
    requires
        0 <= j <= s.len(),
        forall|k: int| j <= k < s.len() ==> !is_ws(#[trigger] s[k]),
    ensures
        word_start(s) == word_start(s.take(j)),
    decreases s.len() - j,
{
    if j < s.len() {
        lemma_word_start_back(s.drop_last(), j);
        assert(s.drop_last().take(j) =~= s.take(j));
    } else {
        assert(s.take(j) =~= s);
    }
}

/// Which popup the text before the cursor calls for, and its query.
pub fn autocomplete_trigger(section: &str, is_server: bool) -> (r: Option<(AutocompleteType, String)>)
    ensures
        r is None <==> spec_autocomplete_trigger(section@, is_server) is None,
        r is Some ==> spec_autocomplete_trigger(section@, is_server) == Some((r.unwrap().0, r.unwrap().1@)),
{
    let v = chars_of(section);
    let n = v.len();
    if n == 0 || is_whitespace(v[n - 1]) {
        return None;
    }
    let mut j: usize = n;
    while j > 0 && !is_whitespace(v[j - 1])
        invariant
            j <= n == v@.len(),
            forall|k: int| j <= k < n ==> !is_ws(#[trigger] v@[k]),
        decreases j,
    {
        j = j - 1;
    }
    proof {
        lemma_word_start_back(v@, j as int);
        if j > 0 {
            assert(v@.take(j as int).last() == v@[j - 1]);
        }
        assert(word_start(v@) == j);
    }
    let first = v[j];
    let ty = if first == '@' {
        AutocompleteType::User
    } else if first == '#' && is_server {
        AutocompleteType::Channel
    } else if first == '%' && is_server {
        AutocompleteType::Role
    } else {
        return None;
    };
    let query = string_of(&v[j + 1..n]);
    proof {
        assert(query@ =~= trailing_word(v@).drop_first());
    }
    Some((ty, query))
}

// ---------------------------------------------------------------------------
// Typing notices
// ---------------------------------------------------------------------------

/// Whether an edit of the message text starts a typing notice: not while
/// the text is empty and none was sent, nor within two seconds of the last.
pub open spec fn spec_sends_typing(content_empty: bool, secs_since_last: Option<u64>) -> bool {
    !((content_empty && secs_since_last is None) || (secs_since_last is Some && secs_since_last->0 < 2))
}

/// Whether an edit of the message text starts a typing notice, given
/// whether the text is empty and the whole seconds since the last notice
/// (`None` if none was sent).
pub fn sends_typing(content_empty: bool, secs_since_last: Option<u64>) -> (r: bool)
    ensures
        r == spec_sends_typing(content_empty, secs_since_last),
{
    match secs_since_last {
        None => !content_empty,
        Some(s) => s >= 2,
    }
}

/// How long after a typing notice the matching stop notice goes out.
pub open spec fn stop_delay_ms() -> u32 {
    2500
}

/// The typing notices of one message box: when the last one went out (in
/// milliseconds of the wall clock), and whether its stop notice is still
/// waiting.
#[derive(Debug, PartialEq, Eq, Clone, Copy, Structural)]
pub struct TypingNotifier {
    pub last_sent_ms: Option<u64>,
    pub stop_pending: bool,
}

/// What the message box sends after an edit or a timer.
#[derive(Debug, PartialEq, Eq, Clone, Copy, Structural)]
pub enum TypingAction {
    Nothing,
    /// Send a typing notice now; drop the stop timer that waits, and start
    /// one that fires `delay_ms` later with token `timer`.
    Begin { timer: u64, delay_ms: u32 },
    /// Send the stop notice.
    End,
}

/// The whole seconds from `last` to `now`.
pub open spec fn whole_secs(now_ms: u64, last: Option<u64>) -> Option<u64> {
    match last {
        Some(t) => Some(((now_ms - t) / 1000) as u64),
        None => None,
    }
}

/// An edit at `now_ms`: where it starts a typing notice, the notice is
/// recorded, and a stop timer is started with the notice's time as token.
pub open spec fn spec_on_edit(n: TypingNotifier, content_empty: bool, now_ms: u64) -> (TypingNotifier, TypingAction) {
    if spec_sends_typing(content_empty, whole_secs(now_ms, n.last_sent_ms)) {
        (
            TypingNotifier { last_sent_ms: Some(now_ms), stop_pending: true },
            TypingAction::Begin { timer: now_ms, delay_ms: stop_delay_ms() },
        )
    } else {
        (n, TypingAction::Nothing)
    }
}

/// A stop timer with token `timer` fires: the stop notice goes out if it is
/// the timer of the last notice and it was not dropped.
pub open spec fn spec_on_stop_timer(n: TypingNotifier, timer: u64) -> (TypingNotifier, TypingAction) {
    if n.stop_pending && n.last_sent_ms == Some(timer) {
        (TypingNotifier { last_sent_ms: n.last_sent_ms, stop_pending: false }, TypingAction::End)
    } else {
        (n, TypingAction::Nothing)
    }
}

impl TypingNotifier {
    /// No notice sent yet.
    pub fn new() -> (r: TypingNotifier)
        ensures
            r.last_sent_ms is None,
            !r.stop_pending,
    {
        TypingNotifier { last_sent_ms: None, stop_pending: false }
    }

    /// The text was edited at `now_ms` and is now empty or not.
    pub fn on_edit(&mut self, content_empty: bool, now_ms: u64) -> (r: TypingAction)
        requires
            old(self).last_sent_ms is Some ==> old(self).last_sent_ms->0 <= now_ms,
        ensures
            (*final(self), r) == spec_on_edit(*old(self), content_empty, now_ms),
    {
        let secs = match self.last_sent_ms {
            Some(t) => Some((now_ms - t) / 1000),
            None => None,
        };
        if sends_typing(content_empty, secs) {
            self.last_sent_ms = Some(now_ms);
            self.stop_pending = true;
            TypingAction::Begin { timer: now_ms, delay_ms: 2500 }
        } else {
            TypingAction::Nothing
        }
    }

    /// The stop timer with token `timer` fired.
    pub fn on_stop_timer(&mut self, timer: u64) -> (r: TypingAction)
        ensures
            (*final(self), r) == spec_on_stop_timer(*old(self), timer),
    {
        let current = match self.last_sent_ms {
            Some(t) => t == timer,
            None => false,
        };
        if self.stop_pending && current {
            self.stop_pending = false;
            TypingAction::End
        } else {
            TypingAction::Nothing
        }
    }
}

/// Every typing notice is followed by one stop notice when its timer
/// fires, unless a later notice went out first; then its timer sends
/// nothing, and only the later one's does.
pub proof fn law_stop_follows_the_last_notice(n: TypingNotifier, empty1: bool, t1: u64, empty2: bool, t2: u64)
    requires
        n.last_sent_ms is Some ==> n.last_sent_ms->0 <= t1,
        t1 <= t2,
        spec_on_edit(n, empty1, t1).1 is Begin,
    ensures
        spec_on_stop_timer(spec_on_edit(n, empty1, t1).0, t1).1 == TypingAction::End,
        ({
            let after = spec_on_edit(spec_on_edit(n, empty1, t1).0, empty2, t2);
            after.1 is Begin ==> t1 != t2 && spec_on_stop_timer(after.0, t1).1 == TypingAction::Nothing
                && spec_on_stop_timer(after.0, t2).1 == TypingAction::End
        }),
{
}

// ---------------------------------------------------------------------------
// Emoji insertion
// ---------------------------------------------------------------------------

/// What picking emoji `e` inserts: a custom emoji id (26 bytes) is wrapped
/// in colons, a Unicode emoji goes in as it is.
pub open spec fn spec_emoji_text(e: Seq<char>) -> Seq<char> {
    if vstd::utf8::encode_utf8(e).len() == 26 {
        seq![':'] + e + seq![':']
    } else {
        e
    }
}

/// What picking emoji `e` inserts into the message text.
pub fn emoji_insert_text(e: &str) -> (r: String)
    ensures
        r@ == spec_emoji_text(e@),
{
    if e.as_bytes().len() == 26 {
        let colon = ":";
        proof {
            reveal_strlit(":");
        }
        let a = concat(colon, e);
        let r = concat(a.as_str(), colon);
        proof {
            assert(r@ =~= seq![':'] + e@ + seq![':']);
        }
        r
    } else {
        string_of(chars_of(e).as_slice())
    }
}

} // verus!

verus! {

// ---------------------------------------------------------------------------
// What the controllers keep
// ---------------------------------------------------------------------------

/// Replying to a message already replied to changes nothing: adding the
/// same reply twice is adding it once.
pub proof fn law_add_reply_twice_is_once(s: Seq<(Seq<char>, bool)>, id: Seq<char>, m1: bool, m2: bool)
    ensures
        spec_add_reply(spec_add_reply(s, id, m1), id, m2) == spec_add_reply(s, id, m1),
{
    let t = spec_add_reply(s, id, m1);
    if !has_reply(s, id) {
        assert(t[t.len() - 1].0 == id);
    }
}

/// Adding a reply keeps each message replied to at most once.
pub proof fn law_add_reply_keeps_unique(s: Seq<(Seq<char>, bool)>, id: Seq<char>, m: bool)
    requires
        ids_unique(s),
    ensures
        ids_unique(spec_add_reply(s, id, m)),
        has_reply(spec_add_reply(s, id, m), id),
{
    let t = spec_add_reply(s, id, m);
    if !has_reply(s, id) {
        assert(t[t.len() - 1].0 == id);
        assert forall|i: int, j: int| 0 <= i < t.len() && 0 <= j < t.len() && i != j implies t[i].0 != t[j].0 by {
            if i < s.len() && j < s.len() {
                assert(t[i] == s[i] && t[j] == s[j]);
            } else if i < s.len() {
                assert(t[i] == s[i]);
            } else {
                assert(t[j] == s[j]);
            }
        }
    }
}

/// Switching a reply's mention twice restores it.
pub proof fn law_toggle_mention_twice(s: Seq<(Seq<char>, bool)>, id: Seq<char>)
    ensures
        spec_toggle_mention(spec_toggle_mention(s, id), id) == s,
{
    let t = spec_toggle_mention(spec_toggle_mention(s, id), id);
    assert(t =~= s);
}

/// Once a reply is removed, no reply to that message is left, and the
/// others stay in their order.
pub proof fn law_removed_reply_is_gone(s: Seq<(Seq<char>, bool)>, id: Seq<char>)
    ensures
        !has_reply(spec_remove_reply(s, id), id),
        forall|k: int| 0 <= k < s.len() && s[k].0 != id ==> spec_remove_reply(s, id).contains(#[trigger] s[k]),
{
    let r = spec_remove_reply(s, id);
    assert forall|k: int| 0 <= k < r.len() implies r[k].0 != id by {
        s.lemma_filter_pred(other_than(id), k);
    }
    assert forall|k: int| 0 <= k < s.len() && s[k].0 != id implies r.contains(#[trigger] s[k]) by {
        s.lemma_filter_contains(other_than(id), k);
    }
}

/// Switching an attachment's spoiler flag twice restores it.
pub proof fn law_toggle_spoiler_twice(s: Seq<(u64, AttachmentV)>, id: u64)
    requires
        entries_wf(s),
    ensures
        spec_toggle_spoiler(spec_toggle_spoiler(s, id), id) == s,
{
    if has_key(s, id) {
        lemma_key_index(s, id);
        let k = key_index(s, id);
        let t = spec_toggle_spoiler(s, id);
        assert(t[k].0 == id);
        lemma_unique_index(s, id, k);
        assert(entries_wf(t)) by {
            assert forall|i: int, j: int| 0 <= i < t.len() && 0 <= j < t.len() && i != j implies t[i].0 != t[j].0 by {
                assert(t[i].0 == s[i].0 && t[j].0 == s[j].0);
            }
        }
        lemma_unique_index(t, id, k);
        assert(spec_toggle_spoiler(t, id) =~= s);
    }
}

/// Once an attachment is removed, none with that id is left.
pub proof fn law_removed_attachment_is_gone(s: Seq<(u64, AttachmentV)>, id: u64)
    requires
        entries_wf(s),
    ensures
        !has_key(spec_remove_attachment(s, id), id),
        spec_remove_attachment(s, id).len() == if has_key(s, id) { s.len() - 1 } else { s.len() as int },
{
    if has_key(s, id) {
        lemma_key_index(s, id);
        let k = key_index(s, id);
        let r = s.remove(k);
        assert forall|i: int| 0 <= i < r.len() implies r[i].0 != id by {
            if i < k {
                assert(r[i] == s[i]);
            } else {
                assert(r[i] == s[i + 1]);
            }
        }
    }
}

/// An attachment put in can be found under its id afterwards, with what
/// was put in.
pub proof fn law_put_then_find(s: Seq<(u64, AttachmentV)>, a: AttachmentV)
    requires
        entries_wf(s),
    ensures
        has_key(spec_put_attachment(s, a), a.0),
        spec_put_attachment(s, a)[key_index(spec_put_attachment(s, a), a.0)] == (a.0, a),
{
    let t = spec_put_attachment(s, a);
    if has_key(s, a.0) {
        lemma_key_index(s, a.0);
        let k = key_index(s, a.0);
        assert(t[k].0 == a.0);
        lemma_key_index(t, a.0);
        let j = key_index(t, a.0);
        if j != k {
            assert(t[j] == s[j]);
        }
    } else {
        assert(t[t.len() - 1].0 == a.0);
        lemma_key_index(t, a.0);
        let j = key_index(t, a.0);
        if j < s.len() {
            assert(t[j] == s[j]);
        }
    }
}

} // verus!

verus! {

/// A popup's query is the rest of the word its trigger character starts:
/// it holds no white space.
pub proof fn law_trigger_query_is_one_word(section: Seq<char>, is_server: bool)
    ensures
        spec_autocomplete_trigger(section, is_server) is Some ==> forall|k: int|
            0 <= k < spec_autocomplete_trigger(section, is_server).unwrap().1.len() ==> !is_ws(
                #[trigger] spec_autocomplete_trigger(section, is_server).unwrap().1[k],
            ),
{
    lemma_word_start(section);
    if spec_autocomplete_trigger(section, is_server) is Some {
        let w = trailing_word(section);
        let q = w.drop_first();
        assert forall|k: int| 0 <= k < q.len() implies !is_ws(#[trigger] q[k]) by {
            assert(q[k] == section[word_start(section) + 1 + k]);
        }
    }
}

} // verus!
