use std::collections::HashMap;

use vstd::prelude::*;
use vstd::std_specs::hash::group_hash_axioms;
use vstd::string::StrSliceExecFns;
use vstd::string::StringExecFns;

use crate::text::{decimal, push_decimal, trim_at, trim_start_at};

verus! {

broadcast use group_hash_axioms;

/// The message link of message `id` in `channel`: the channel's name without
/// its leading '@', under the public message host.
pub open spec fn message_link(channel: Seq<char>, id: nat) -> Seq<char> {
    "https://t.me/"@ + trim_at(channel) + "/"@ + decimal(id)
}

/// The message id recorded for `url` in `entries`: that of the first entry
/// with that key.
pub open spec fn lookup(entries: Seq<(String, u64)>, url: Seq<char>) -> Option<u64>
    decreases entries.len(),
{
    if entries.len() == 0 {
        None
    } else if entries[0].0@ == url {
        Some(entries[0].1)
    } else {
        lookup(entries.drop_first(), url)
    }
}

proof fn lemma_lookup_at(entries: Seq<(String, u64)>, i: int, url: Seq<char>)
    requires
        0 <= i <= entries.len(),
        forall|j: int| 0 <= j < i ==> entries[j].0@ != url,
    ensures
        i < entries.len() && entries[i].0@ == url ==> lookup(entries, url) == Some(entries[i].1),
        i == entries.len() ==> lookup(entries, url) == None::<u64>,
    decreases i,
{
    if i > 0 {
        lemma_lookup_at(entries.drop_first(), i - 1, url);
    }
}

proof fn lemma_lookup_update(
    entries: Seq<(String, u64)>,
    i: int,
    e: (String, u64),
    u: Seq<char>,
)
    requires
        0 <= i < entries.len(),
        entries[i].0@ == e.0@,
        forall|j: int| 0 <= j < i ==> entries[j].0@ != e.0@,
    ensures
        lookup(entries.update(i, e), u) == if u == e.0@ {
            Some(e.1)
        } else {
            lookup(entries, u)
        },
    decreases i,
{
    if i > 0 {
        lemma_lookup_update(entries.drop_first(), i - 1, e, u);
        assert(entries.update(i, e).drop_first() =~= entries.drop_first().update(i - 1, e));
        assert(entries[0].0@ != e.0@);
    } else {
        assert(entries.update(i, e).drop_first() =~= entries.drop_first());
    }
}

proof fn lemma_lookup_push(entries: Seq<(String, u64)>, e: (String, u64), u: Seq<char>)
    requires
        forall|j: int| 0 <= j < entries.len() ==> entries[j].0@ != e.0@,
    ensures
        lookup(entries.push(e), u) == if u == e.0@ {
            Some(e.1)
        } else {
            lookup(entries, u)
        },
    decreases entries.len(),
{
    if entries.len() > 0 {
        lemma_lookup_push(entries.drop_first(), e, u);
        assert(entries.push(e).drop_first() =~= entries.drop_first().push(e));
        assert(entries[0].0@ != e.0@);
    } else {
        assert(entries.push(e).drop_first() =~= entries);
    }
}

/// What the bot remembers between runs: its credentials, its channels, and
/// the messages it already posted images and comments in.
pub struct Database {
    pub token: String,
    pub channel: String,
    pub assets_channel: String,
    /// Message ids by image url; the first pair for a url counts. Kept as pairs: the hash map
    /// specifications model lookups for integer keys only, so a map keyed by
    /// `String` would leave `get_img` unprovable.
    pub imgs: Vec<(String, u64)>,
    pub comments: HashMap<u64, u64>,
}

impl Database {
    /// The message id recorded for an image url.
    pub open spec fn img_id(&self, url: Seq<char>) -> Option<u64> {
        lookup(self.imgs@, url)
    }

    /// The message id recorded for a comment.
    pub open spec fn comment_msg(&self, id: u64) -> Option<u64> {
        if self.comments@.contains_key(id) {
            Some(self.comments@[id])
        } else {
            None
        }
    }

    pub fn new(token: String, channel: String, assets_channel: String) -> (r: Database)
        ensures
            r.token == token,
            r.channel == channel,
            r.assets_channel == assets_channel,
            forall|u: Seq<char>| r.img_id(u) is None,
            forall|id: u64| r.comment_msg(id) is None,
    {
        Database { token, channel, assets_channel, imgs: Vec::new(), comments: HashMap::new() }
    }

    /// The recorded images, as (url, message id) pairs.
    pub fn img_entries(&self) -> (r: &Vec<(String, u64)>)
        ensures
            forall|u: Seq<char>| self.img_id(u) == lookup(r@, u),
    {
        &self.imgs
    }

    /// The recorded comments, as a map from comment id to message id.
    pub fn comment_entries(&self) -> (r: &HashMap<u64, u64>)
        ensures
            forall|id: u64| self.comment_msg(id) == (if r@.contains_key(id) {
                Some(r@[id])
            } else {
                None::<u64>
            }),
    {
        &self.comments
    }

    fn find_img(&self, url: &String) -> (r: Option<usize>)
        ensures
            match r {
                Some(i) => i < self.imgs@.len() && self.imgs@[i as int].0@ == url@ && forall|
                    j: int,
                | 0 <= j < i ==> self.imgs@[j].0@ != url@,
                None => forall|j: int| 0 <= j < self.imgs@.len() ==> self.imgs@[j].0@ != url@,
            },
    {
        let mut i: usize = 0;
        while i < self.imgs.len()
            invariant
                0 <= i <= self.imgs@.len(),
                forall|j: int| 0 <= j < i ==> self.imgs@[j].0@ != url@,
            decreases self.imgs@.len() - i,
        {
            if self.imgs[i].0 == *url {
                return Some(i);
            }
            i = i + 1;
        }
        None
    }

    /// The link to the message that holds the image at `url`, if it was posted.
    pub fn get_img(&self, url: &str) -> (r: Option<String>)
        ensures
            match self.img_id(url@) {
                Some(id) => r is Some && r->0@ == message_link(self.assets_channel@, id as nat),
                None => r is None,
            },
    {
        let key = String::from_str(url);
        match self.find_img(&key) {
            Some(i) => {
                proof {
                    lemma_lookup_at(self.imgs@, i as int, url@);
                }
                Some(link_to(self.assets_channel.as_str(), self.imgs[i].1))
            },
            None => {
                proof {
                    lemma_lookup_at(self.imgs@, self.imgs@.len() as int, url@);
                }
                None
            },
        }
    }

    /// The link to the message that holds comment `comment_id`, if it was posted.
    pub fn get_comment(&self, comment_id: u64) -> (r: Option<String>)
        ensures
            match self.comment_msg(comment_id) {
                Some(id) => r is Some && r->0@ == message_link(self.assets_channel@, id as nat),
                None => r is None,
            },
    {
        match self.comments.get(&comment_id) {
            Some(msg_id) => Some(link_to(self.assets_channel.as_str(), *msg_id)),
            None => None,
        }
    }

    /// Records that the image at `url` was posted as message `msg_id`.
    pub fn put_img(&mut self, url: String, msg_id: u64)
        ensures
            final(self).token == old(self).token,
            final(self).channel == old(self).channel,
            final(self).assets_channel == old(self).assets_channel,
            final(self).img_id(url@) == Some(msg_id),
            forall|u: Seq<char>| u != url@ ==> final(self).img_id(u) == old(self).img_id(u),
            forall|id: u64| final(self).comment_msg(id) == old(self).comment_msg(id),
    {
        let ghost before = self.imgs@;
        let ghost key = url@;
        match self.find_img(&url) {
            Some(i) => {
                let e = (url, msg_id);
                proof {
                    assert forall|u: Seq<char>| lookup(before.update(i as int, e), u) == if u
                        == key {
                        Some(msg_id)
                    } else {
                        lookup(before, u)
                    } by {
                        lemma_lookup_update(before, i as int, e, u);
                    }
                }
                self.imgs.set(i, e);
            },
            None => {
                let e = (url, msg_id);
                proof {
                    assert forall|u: Seq<char>| lookup(before.push(e), u) == if u == key {
                        Some(msg_id)
                    } else {
                        lookup(before, u)
                    } by {
                        lemma_lookup_push(before, e, u);
                    }
                }
                self.imgs.push(e);
            },
        }
    }

    /// Records that comment `comment_id` was posted as message `msg_id`.
    pub fn put_comment(&mut self, comment_id: u64, msg_id: u64)
        ensures
            final(self).token == old(self).token,
            final(self).channel == old(self).channel,
            final(self).assets_channel == old(self).assets_channel,
            final(self).comment_msg(comment_id) == Some(msg_id),
            forall|id: u64| id != comment_id ==> final(self).comment_msg(id) == old(self).comment_msg(id),
            forall|u: Seq<char>| final(self).img_id(u) == old(self).img_id(u),
    {
        self.comments.insert(comment_id, msg_id);
    }
}

/// The link to message `id` in `channel`.
pub fn link_to(channel: &str, id: u64) -> (r: String)
    ensures
        r@ == message_link(channel@, id as nat),
{
    let mut r = String::from_str("https://t.me/");
    r.append(trim_start_at(channel));
    r.append("/");
    push_decimal(&mut r, id);
    r
}

} // verus!
