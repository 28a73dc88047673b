//! Assembling the channels of an export from its files.
use vstd::prelude::*;

use crate::slack::{ts_lt, Channel, Message};
use crate::text::{chars_of, copy_range, find_char, index_of, string_of};

verus! {

/// A source channel with its messages.
#[derive(Debug)]
pub struct SlackChannel {
    pub id: String,
    pub name: String,
    pub messages: Vec<Message>,
}

impl SlackChannel {
    /// The channel `c`, with no messages yet.
    pub fn from_channel(c: Channel) -> (r: SlackChannel)
        ensures
            r.id@ == c.id@,
            r.name@ == c.name@,
            r.messages@.len() == 0,
    {
        SlackChannel { id: c.id, name: c.name, messages: Vec::new() }
    }
}

/// What a file of the export holds, by its path.
#[derive(Debug)]
pub enum EntryKind {
    /// `<channel>/<file>`: messages of that channel.
    Messages(String),
    /// `<channel>/`: a directory.
    Directory,
    /// Any other path, which is not read.
    Other,
}

/// The kind of the export file at `path`: split at every `/`, a path of
/// exactly two parts names a channel's message file, or a directory where the
/// second part is empty.
pub open spec fn entry_kind_of(path: Seq<char>) -> Option<Option<Seq<char>>> {
    let slash = index_of(path, '/');
    let rest = path.skip(slash + 1);
    if slash == path.len() || index_of(rest, '/') < rest.len() {
        None
    } else if rest.len() == 0 {
        Some(None)
    } else {
        Some(Some(path.take(slash)))
    }
}

/// Reads the path of an export file (see [`entry_kind_of`]).
pub fn entry_kind(path: &str) -> (r: EntryKind)
    ensures
        match entry_kind_of(path@) {
            None => r is Other,
            Some(None) => r is Directory,
            Some(Some(channel)) => r matches EntryKind::Messages(c) && c@ == channel,
        },
{
    let cs = chars_of(path);
    assert(cs@.skip(0) =~= cs@);
    let slash = find_char(&cs, 0, '/');
    if slash == cs.len() {
        return EntryKind::Other;
    }
    let second = find_char(&cs, slash + 1, '/');
    if second < cs.len() {
        return EntryKind::Other;
    }
    if slash + 1 == cs.len() {
        assert(cs@.skip(slash + 1).len() == 0);
        return EntryKind::Directory;
    }
    let channel = copy_range(&cs, 0, slash);
    assert(channel@ =~= path@.take(slash as int));
    EntryKind::Messages(string_of(&channel))
}

/// Why an export could not be assembled.
#[derive(Clone, Copy, Debug, PartialEq, Eq, Structural)]
pub enum ArchiveError {
    /// A message file belongs to no channel of the channel list.
    UnknownChannel,
}

/// Appends `messages` to the first channel named `channel_name`.
pub fn add_messages(
    channels: &mut Vec<SlackChannel>,
    channel_name: &String,
    messages: Vec<Message>,
) -> (r: Result<(), ArchiveError>)
    ensures
        r is Err <==> (forall|i: int| 0 <= i < old(channels)@.len() ==> (#[trigger] old(channels)@[i]).name@ != channel_name@),
        r is Err ==> r == Err::<(), ArchiveError>(ArchiveError::UnknownChannel) && final(channels)@ == old(channels)@,
        r is Ok ==> exists|i: int| {
            &&& 0 <= i < old(channels)@.len()
            &&& (#[trigger] old(channels)@[i]).name@ == channel_name@
            &&& forall|j: int| 0 <= j < i ==> (#[trigger] old(channels)@[j]).name@ != channel_name@
            &&& final(channels)@ == old(channels)@.update(i, SlackChannel {
                id: old(channels)@[i].id,
                name: old(channels)@[i].name,
                messages: final(channels)@[i].messages,
            })
            &&& final(channels)@[i].messages@ == old(channels)@[i].messages@ + messages@
        },
{
    let mut i: usize = 0;
    while i < channels.len()
        invariant
            i <= channels.len(),
            channels@ == old(channels)@,
            forall|j: int| 0 <= j < i ==> (#[trigger] channels@[j]).name@ != channel_name@,
        decreases channels.len() - i,
    {
        if channels[i].name == *channel_name {
            let mut moved = messages;
            channels[i].messages.append(&mut moved);
            return Ok(());
        }
        i = i + 1;
    }
    Err(ArchiveError::UnknownChannel)
}

/// Whether `m` is in ascending timestamp order (equal timestamps allowed).
pub open spec fn sorted_by_ts(m: Seq<Message>) -> bool {
    forall|i: int, j: int| 0 <= i < j < m.len() ==> !ts_lt(m[j].spec_ts(), m[i].spec_ts())
}

/// `r` lists the messages of `m` at the positions `p`, each position once,
/// and messages with equal timestamps in the order `m` had them.
pub open spec fn stable_arrangement(r: Seq<Message>, m: Seq<Message>, p: Seq<int>) -> bool {
    &&& p.len() == r.len()
    &&& forall|k: int| 0 <= k < p.len() ==> 0 <= #[trigger] p[k] < m.len() && r[k] == m[p[k]]
    &&& forall|k1: int, k2: int| 0 <= k1 < k2 < p.len() ==> p[k1] != p[k2]
    &&& forall|k1: int, k2: int| 0 <= k1 < k2 < p.len() && r[k1].spec_ts() == r[k2].spec_ts() ==> p[k1] < p[k2]
}

/// Puts `messages` in ascending timestamp order; messages with equal
/// timestamps keep their order.
pub fn sort_messages(messages: Vec<Message>) -> (r: Vec<Message>)
    ensures
        sorted_by_ts(r@),
        r@.len() == messages@.len(),
        r@.to_multiset() == messages@.to_multiset(),
        exists|p: Seq<int>| stable_arrangement(r@, messages@, p),
{
    broadcast use vstd::seq_lib::group_to_multiset_ensures;

    let ghost all = messages@;
    let mut rest = messages;
    let mut out: Vec<Message> = Vec::new();
    let ghost mut pos: Seq<int> = Seq::empty();
    while rest.len() > 0
        invariant
            sorted_by_ts(out@),
            rest@.to_multiset().add(out@.to_multiset()) == all.to_multiset(),
            rest@ == all.take(rest@.len() as int),
            rest@.len() + out@.len() == all.len(),
            stable_arrangement(out@, all, pos),
            forall|k: int| 0 <= k < pos.len() ==> #[trigger] pos[k] >= rest@.len(),
        decreases rest.len(),
    {
        let ghost before = rest@;
        let ghost q = rest@.len() - 1;
        let m = rest.pop().unwrap();
        assert(before == rest@.push(m));
        assert(m == all[q]);
        assert(rest@ =~= all.take(rest@.len() as int));
        let key = m.ts();
        let mut i: usize = 0;
        while i < out.len() && out[i].ts().earlier(&key)
            invariant
                i <= out.len(),
                forall|j: int| 0 <= j < i ==> ts_lt(#[trigger] out@[j].spec_ts(), key@),
            decreases out.len() - i,
        {
            i = i + 1;
        }
        let ghost prev = out@;
        let ghost prev_pos = pos;
        out.insert(i, m);
        proof {
            pos = prev_pos.insert(i as int, q);
        }
        assert(out@ == prev.insert(i as int, m));
        proof {
            vstd::seq_lib::to_multiset_build(rest@, m);
            vstd::seq_lib::to_multiset_insert(prev, i as int, m);
            assert(rest@.to_multiset().add(out@.to_multiset()) =~= before.to_multiset().add(prev.to_multiset()));
        }
        assert(sorted_by_ts(out@)) by {
            assert forall|a: int, b: int| 0 <= a < b < out@.len() implies !ts_lt(out@[b].spec_ts(), out@[a].spec_ts()) by {
                if a < i && b == i {
                } else if a < i && b > i {
                    assert(out@[b] == prev[b - 1]);
                    if (b - 1) > i {
                        assert(!ts_lt(prev[b - 1].spec_ts(), prev[i as int].spec_ts()));
                    }
                } else if a == i && b > i {
                    assert(out@[b] == prev[b - 1]);
                    if (b - 1) > i {
                        assert(!ts_lt(prev[b - 1].spec_ts(), prev[i as int].spec_ts()));
                    }
                } else if b < i {
                } else {
                    assert(out@[a] == prev[a - 1]);
                    assert(out@[b] == prev[b - 1]);
                }
            }
        }
        assert(stable_arrangement(out@, all, pos)) by {
            assert forall|k: int| 0 <= k < pos.len() implies 0 <= #[trigger] pos[k] < all.len() && out@[k] == all[pos[k]] by {
                if k < i {
                    assert(pos[k] == prev_pos[k]);
                } else if k > i {
                    assert(pos[k] == prev_pos[k - 1]);
                }
            }
            assert forall|k1: int, k2: int| 0 <= k1 < k2 < pos.len() implies pos[k1] != pos[k2] by {
                if k1 != i && k2 != i {
                    let j1 = if k1 < i { k1 } else { k1 - 1 };
                    let j2 = if k2 < i { k2 } else { k2 - 1 };
                    assert(pos[k1] == prev_pos[j1]);
                    assert(pos[k2] == prev_pos[j2]);
                } else if k1 == i {
                    assert(pos[k2] == prev_pos[k2 - 1]);
                    assert(prev_pos[k2 - 1] >= before.len());
                } else {
                    assert(pos[k1] == prev_pos[k1]);
                    assert(prev_pos[k1] >= before.len());
                }
            }
            assert forall|k1: int, k2: int| 0 <= k1 < k2 < pos.len() && out@[k1].spec_ts() == out@[k2].spec_ts() implies pos[k1] < pos[k2] by {
                if k1 != i && k2 != i {
                    let j1 = if k1 < i { k1 } else { k1 - 1 };
                    let j2 = if k2 < i { k2 } else { k2 - 1 };
                    assert(pos[k1] == prev_pos[j1]);
                    assert(pos[k2] == prev_pos[j2]);
                    assert(out@[k1] == prev[j1]);
                    assert(out@[k2] == prev[j2]);
                } else if k1 == i {
                    assert(pos[k2] == prev_pos[k2 - 1]);
                    assert(prev_pos[k2 - 1] >= before.len());
                } else {
                    assert(out@[k1] == prev[k1]);
                    assert(ts_lt(prev[k1].spec_ts(), key@));
                }
            }
        }
        assert forall|k: int| 0 <= k < pos.len() implies #[trigger] pos[k] >= rest@.len() by {
            if k < i {
                assert(pos[k] == prev_pos[k]);
            } else if k > i {
                assert(pos[k] == prev_pos[k - 1]);
            }
        }
    }
    assert(rest@ =~= Seq::<Message>::empty());
    out
}

} // verus!
