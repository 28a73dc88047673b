//! Deciding which destination categories and channels to create.
//!
//! Provisioning is idempotent: what exists at the destination is kept, and
//! only what is missing is created.
use vstd::prelude::*;

use crate::discord::{ChannelGet, ChannelGetView, ChannelId, ChannelPost, ChannelType};

verus! {

/// Which category each source channel goes into: (source channel name,
/// category name), at most one entry per source channel.
#[derive(Debug)]
pub struct ChannelConfig {
    entries: Vec<(String, String)>,
}

/// No source channel name appears twice.
pub open spec fn distinct_sources(c: Seq<(String, String)>) -> bool {
    forall|i: int, j: int| 0 <= i < j < c.len() ==> (#[trigger] c[i]).0@ != (#[trigger] c[j]).0@
}

/// Why a configuration was refused.
#[derive(Clone, Copy, Debug, PartialEq, Eq, Structural)]
pub enum ConfigError {
    /// Two entries name the same source channel.
    DuplicateChannel,
}

impl ChannelConfig {
    #[verifier::type_invariant]
    spec fn sources_distinct(&self) -> bool {
        distinct_sources(self.entries@)
    }

    pub closed spec fn spec_entries(&self) -> Seq<(String, String)> {
        self.entries@
    }

    /// The configuration of `entries`, unless two of them name the same
    /// source channel.
    pub fn new(entries: Vec<(String, String)>) -> (r: Result<ChannelConfig, ConfigError>)
        ensures
            r is Ok <==> distinct_sources(entries@),
            r is Ok ==> r->Ok_0.spec_entries() == entries@,
            r is Err ==> r == Err::<ChannelConfig, ConfigError>(ConfigError::DuplicateChannel),
    {
        let mut j: usize = 1;
        while j < entries.len()
            invariant
                1 <= j || entries.len() == 0,
                forall|a: int, b: int| 0 <= a < b < j && b < entries.len() ==> (#[trigger] entries@[a]).0@ != (#[trigger] entries@[b]).0@,
            decreases entries.len() - j,
        {
            let mut i: usize = 0;
            while i < j
                invariant
                    j < entries.len(),
                    i <= j,
                    forall|a: int| 0 <= a < i ==> (#[trigger] entries@[a]).0@ != entries@[j as int].0@,
                decreases j - i,
            {
                if entries[i].0 == entries[j].0 {
                    return Err(ConfigError::DuplicateChannel);
                }
                i = i + 1;
            }
            j = j + 1;
        }
        Ok(ChannelConfig { entries })
    }

    /// The entries, each source channel at most once.
    pub fn entries(&self) -> (r: &Vec<(String, String)>)
        ensures
            r@ == self.spec_entries(),
            distinct_sources(r@),
    {
        proof {
            use_type_invariant(self);
        }
        &self.entries
    }
}

pub open spec fn names_of(v: Seq<String>) -> Seq<Seq<char>> {
    v.map_values(|s: String| s@)
}

pub open spec fn config_view(config: Seq<(String, String)>) -> Seq<(Seq<char>, Seq<char>)> {
    config.map_values(|p: (String, String)| (p.0@, p.1@))
}

pub open spec fn pairs_of(v: Seq<(String, ChannelId)>) -> Seq<(Seq<char>, Seq<char>)> {
    v.map_values(|p: (String, ChannelId)| (p.0@, p.1@))
}

fn contains_name(v: &Vec<String>, name: &String) -> (r: bool)
    ensures
        r == names_of(v@).contains(name@),
{
    let mut i: usize = 0;
    while i < v.len()
        invariant
            i <= v.len(),
            forall|j: int| 0 <= j < i ==> v@[j]@ != name@,
        decreases v.len() - i,
    {
        if v[i] == *name {
            assert(names_of(v@)[i as int] == name@);
            return true;
        }
        i = i + 1;
    }
    assert(!names_of(v@).contains(name@)) by {
        if names_of(v@).contains(name@) {
            let j = choose|j: int| 0 <= j < names_of(v@).len() && names_of(v@)[j] == name@;
            assert(v@[j]@ == name@);
        }
    }
    false
}

/// The category names of `config`, one per entry.
pub open spec fn categories_of(config: Seq<(String, String)>) -> Seq<Seq<char>> {
    config.map_values(|p: (String, String)| p.1@)
}

/// The categories that `config` (source channel name, category name) asks
/// for, each once.
pub fn wanted_categories(config: &Vec<(String, String)>) -> (r: Vec<String>)
    ensures
        forall|c: Seq<char>| #[trigger] names_of(r@).contains(c) <==> categories_of(config@).contains(c),
        names_of(r@).no_duplicates(),
{
    let mut r: Vec<String> = Vec::new();
    let mut i: usize = 0;
    while i < config.len()
        invariant
            i <= config.len(),
            forall|c: Seq<char>| #[trigger] names_of(r@).contains(c) <==> categories_of(config@).take(i as int).contains(c),
            names_of(r@).no_duplicates(),
        decreases config.len() - i,
    {
        let category = &config[i].1;
        let ghost before = r@;
        let ghost w0 = categories_of(config@).take(i as int);
        let ghost w1 = categories_of(config@).take(i + 1);
        assert(w1 =~= w0.push(category@));
        if !contains_name(&r, category) {
            r.push(category.clone());
            assert(names_of(r@) =~= names_of(before).push(category@));
        }
        assert forall|c: Seq<char>| #[trigger] names_of(r@).contains(c) <==> w1.contains(c) by {
            if names_of(r@).contains(c) {
                let k = choose|k: int| 0 <= k < names_of(r@).len() && names_of(r@)[k] == c;
                if k < before.len() {
                    assert(names_of(before)[k] == c);
                    assert(names_of(before).contains(c));
                    let j = choose|j: int| 0 <= j < w0.len() && w0[j] == c;
                    assert(w1[j] == c);
                } else {
                    assert(w1[i as int] == c);
                }
            }
            if w1.contains(c) {
                let j = choose|j: int| 0 <= j < w1.len() && w1[j] == c;
                if j < i {
                    assert(w0[j] == c);
                    assert(w0.contains(c));
                    assert(names_of(before).contains(c));
                    let k = choose|k: int| 0 <= k < names_of(before).len() && names_of(before)[k] == c;
                    assert(names_of(r@)[k] == c);
                } else if names_of(before).contains(c) {
                    let k = choose|k: int| 0 <= k < names_of(before).len() && names_of(before)[k] == c;
                    assert(names_of(r@)[k] == c);
                } else {
                    assert(names_of(r@)[names_of(r@).len() - 1] == c);
                }
            }
        }
        i = i + 1;
    }
    assert(categories_of(config@).take(config.len() as int) =~= categories_of(config@));
    r
}

/// The categories among `existing` whose names are wanted, as (name, id), in
/// the order listed.
pub open spec fn category_pairs(existing: Seq<ChannelGetView>, wanted: Seq<Seq<char>>) -> Seq<(Seq<char>, Seq<char>)>
    decreases existing.len(),
{
    if existing.len() == 0 {
        Seq::empty()
    } else {
        let rest = category_pairs(existing.drop_last(), wanted);
        let c = existing.last();
        if c.channel_type == ChannelType::GuildCategory && wanted.contains(c.name) {
            rest.push((c.name, c.id))
        } else {
            rest
        }
    }
}

pub open spec fn channels_view(v: Seq<ChannelGet>) -> Seq<ChannelGetView> {
    v.map_values(|c: ChannelGet| c@)
}

/// The wanted categories that already exist at the destination.
pub fn deployed_categories(existing: &Vec<ChannelGet>, wanted: &Vec<String>) -> (r: Vec<(String, ChannelId)>)
    ensures
        pairs_of(r@) == category_pairs(channels_view(existing@), names_of(wanted@)),
{
    let mut r: Vec<(String, ChannelId)> = Vec::new();
    let mut i: usize = 0;
    while i < existing.len()
        invariant
            i <= existing.len(),
            pairs_of(r@) == category_pairs(channels_view(existing@).take(i as int), names_of(wanted@)),
        decreases existing.len() - i,
    {
        let c = &existing[i];
        assert(channels_view(existing@).take(i + 1).drop_last() =~= channels_view(existing@).take(i as int));
        let ghost before = r@;
        if c.channel_type == ChannelType::GuildCategory && contains_name(wanted, &c.name) {
            r.push((c.name.clone(), c.id.duplicate()));
            assert(pairs_of(r@) =~= pairs_of(before).push((c.name@, c.id@)));
        }
        i = i + 1;
    }
    assert(channels_view(existing@).take(existing.len() as int) =~= channels_view(existing@));
    r
}

fn has_pair_named(pairs: &Vec<(String, ChannelId)>, name: &String) -> (r: Option<usize>)
    ensures
        r is None <==> forall|j: int| 0 <= j < pairs@.len() ==> (#[trigger] pairs@[j]).0@ != name@,
        r is Some ==> r->0 < pairs@.len() && pairs@[r->0 as int].0@ == name@
            && forall|j: int| 0 <= j < r->0 ==> (#[trigger] pairs@[j]).0@ != name@,
{
    let mut i: usize = 0;
    while i < pairs.len()
        invariant
            i <= pairs.len(),
            forall|j: int| 0 <= j < i ==> (#[trigger] pairs@[j]).0@ != name@,
        decreases pairs.len() - i,
    {
        if pairs[i].0 == *name {
            return Some(i);
        }
        i = i + 1;
    }
    None
}

pub open spec fn posts_name(r: Seq<ChannelPost>, c: Seq<char>) -> bool {
    exists|k: int| 0 <= k < r.len() && (#[trigger] r[k]).name@ == c
}

pub open spec fn pairs_name(d: Seq<(String, ChannelId)>, c: Seq<char>) -> bool {
    exists|j: int| 0 <= j < d.len() && (#[trigger] d[j]).0@ == c
}

fn has_post_named(posts: &Vec<ChannelPost>, name: &String) -> (r: bool)
    ensures
        r == posts_name(posts@, name@),
{
    let mut i: usize = 0;
    while i < posts.len()
        invariant
            i <= posts.len(),
            forall|j: int| 0 <= j < i ==> (#[trigger] posts@[j]).name@ != name@,
        decreases posts.len() - i,
    {
        if posts[i].name == *name {
            return true;
        }
        i = i + 1;
    }
    false
}

/// The wanted categories that do not exist yet, each once, as a category to
/// create at the top level, in the order wanted.
pub fn categories_to_create(wanted: &Vec<String>, deployed: &Vec<(String, ChannelId)>) -> (r: Vec<ChannelPost>)
    ensures
        r@.len() <= wanted@.len(),
        forall|k: int| 0 <= k < r@.len() ==> {
            &&& (#[trigger] r@[k]).channel_type == ChannelType::GuildCategory
            &&& r@[k].parent_id is None
        },
        forall|c: Seq<char>| #[trigger] posts_name(r@, c) <==> (names_of(wanted@).contains(c) && !pairs_name(deployed@, c)),
        forall|k1: int, k2: int| 0 <= k1 < k2 < r@.len() ==> (#[trigger] r@[k1]).name@ != (#[trigger] r@[k2]).name@,
{
    let mut r: Vec<ChannelPost> = Vec::new();
    let mut i: usize = 0;
    while i < wanted.len()
        invariant
            i <= wanted.len(),
            r@.len() <= i,
            forall|k: int| 0 <= k < r@.len() ==> {
                &&& (#[trigger] r@[k]).channel_type == ChannelType::GuildCategory
                &&& r@[k].parent_id is None
            },
            forall|c: Seq<char>| #[trigger] posts_name(r@, c) <==> (names_of(wanted@).take(i as int).contains(c) && !pairs_name(deployed@, c)),
            forall|k1: int, k2: int| 0 <= k1 < k2 < r@.len() ==> (#[trigger] r@[k1]).name@ != (#[trigger] r@[k2]).name@,
        decreases wanted.len() - i,
    {
        let name = &wanted[i];
        let ghost before = r@;
        let found = has_pair_named(deployed, name);
        let listed = has_post_named(&r, name);
        if found.is_none() && !listed {
            r.push(ChannelPost { name: name.clone(), channel_type: ChannelType::GuildCategory, parent_id: None });
        }
        let ghost w0 = names_of(wanted@).take(i as int);
        let ghost w1 = names_of(wanted@).take(i + 1);
        assert(w1 =~= w0.push(name@));
        assert forall|c: Seq<char>| #[trigger] posts_name(r@, c) <==> (w1.contains(c) && !pairs_name(deployed@, c)) by {
            if posts_name(r@, c) {
                let k = choose|k: int| 0 <= k < r@.len() && (#[trigger] r@[k]).name@ == c;
                if k < before.len() {
                    assert(before[k] == r@[k]);
                    assert(posts_name(before, c));
                    let j = choose|j: int| 0 <= j < w0.len() && w0[j] == c;
                    assert(w1[j] == c);
                } else {
                    assert(w1[i as int] == c);
                    if pairs_name(deployed@, c) {
                        let j = choose|j: int| 0 <= j < deployed@.len() && (#[trigger] deployed@[j]).0@ == c;
                    }
                }
            }
            if w1.contains(c) && !pairs_name(deployed@, c) {
                let j = choose|j: int| 0 <= j < w1.len() && w1[j] == c;
                if j < i {
                    assert(w0[j] == c);
                    assert(posts_name(before, c));
                    let k = choose|k: int| 0 <= k < before.len() && (#[trigger] before[k]).name@ == c;
                    assert(r@[k] == before[k]);
                } else if listed {
                    assert(posts_name(before, c));
                    let k = choose|k: int| 0 <= k < before.len() && (#[trigger] before[k]).name@ == c;
                    assert(r@[k] == before[k]);
                } else {
                    assert(found is None);
                    assert(r@[r@.len() - 1].name@ == c);
                }
            }
        }
        i = i + 1;
    }
    assert(names_of(wanted@).take(wanted.len() as int) =~= names_of(wanted@));
    r
}

pub open spec fn ids_of(categories: Seq<(String, ChannelId)>) -> Seq<Seq<char>> {
    categories.map_values(|p: (String, ChannelId)| p.1@)
}

/// Provisioning is idempotent for categories: once every wanted category
/// exists at the destination, the categories to create (as
/// [`categories_to_create`] gives them) are none.
pub proof fn law_second_provisioning_creates_no_category(
    wanted: Seq<String>,
    deployed: Seq<(String, ChannelId)>,
    to_create: Seq<ChannelPost>,
)
    requires
        forall|c: Seq<char>| #[trigger] posts_name(to_create, c) <==> (names_of(wanted).contains(c) && !pairs_name(deployed, c)),
        forall|c: Seq<char>| names_of(wanted).contains(c) ==> #[trigger] pairs_name(deployed, c),
    ensures
        to_create.len() == 0,
{
    if to_create.len() > 0 {
        let c = to_create[0].name@;
        assert(posts_name(to_create, c));
    }
}

/// The text channels among `existing` that sit in one of the categories `ids`.
pub open spec fn channels_in(existing: Seq<ChannelGetView>, ids: Seq<Seq<char>>) -> Seq<ChannelGetView>
    decreases existing.len(),
{
    if existing.len() == 0 {
        Seq::empty()
    } else {
        let rest = channels_in(existing.drop_last(), ids);
        let c = existing.last();
        if c.channel_type == ChannelType::GuildText && c.parent_id is Some && ids.contains(c.parent_id->0) {
            rest.push(c)
        } else {
            rest
        }
    }
}

fn contains_id(categories: &Vec<(String, ChannelId)>, id: &ChannelId) -> (r: bool)
    ensures
        r == ids_of(categories@).contains(id@),
{
    let mut i: usize = 0;
    while i < categories.len()
        invariant
            i <= categories.len(),
            forall|j: int| 0 <= j < i ==> categories@[j].1@ != id@,
        decreases categories.len() - i,
    {
        if categories[i].1 == *id {
            assert(ids_of(categories@)[i as int] == id@);
            return true;
        }
        i = i + 1;
    }
    assert(!ids_of(categories@).contains(id@)) by {
        if ids_of(categories@).contains(id@) {
            let j = choose|j: int| 0 <= j < ids_of(categories@).len() && ids_of(categories@)[j] == id@;
            assert(categories@[j].1@ == id@);
        }
    }
    false
}

/// The text channels that already exist inside the provisioned categories.
pub fn deployed_channels(existing: &Vec<ChannelGet>, categories: &Vec<(String, ChannelId)>) -> (r: Vec<ChannelGet>)
    ensures
        channels_view(r@) == channels_in(channels_view(existing@), ids_of(categories@)),
{
    let mut r: Vec<ChannelGet> = Vec::new();
    let mut i: usize = 0;
    while i < existing.len()
        invariant
            i <= existing.len(),
            channels_view(r@) == channels_in(channels_view(existing@).take(i as int), ids_of(categories@)),
        decreases existing.len() - i,
    {
        let c = &existing[i];
        assert(channels_view(existing@).take(i + 1).drop_last() =~= channels_view(existing@).take(i as int));
        let ghost before = r@;
        let keep = match (&c.channel_type, &c.parent_id) {
            (ChannelType::GuildText, Some(p)) => contains_id(categories, p),
            _ => false,
        };
        if keep {
            r.push(c.duplicate());
            assert(channels_view(r@) =~= channels_view(before).push(c@));
        }
        i = i + 1;
    }
    assert(channels_view(existing@).take(existing.len() as int) =~= channels_view(existing@));
    r
}

/// Position of the first channel named `name`, if any.
pub fn find_channel(channels: &Vec<ChannelGet>, name: &String) -> (r: Option<usize>)
    ensures
        r is None <==> forall|j: int| 0 <= j < channels@.len() ==> (#[trigger] channels@[j]).name@ != name@,
        r is Some ==> r->0 < channels@.len() && channels@[r->0 as int].name@ == name@
            && forall|j: int| 0 <= j < r->0 ==> (#[trigger] channels@[j]).name@ != name@,
{
    let mut i: usize = 0;
    while i < channels.len()
        invariant
            i <= channels.len(),
            forall|j: int| 0 <= j < i ==> (#[trigger] channels@[j]).name@ != name@,
        decreases channels.len() - i,
    {
        if channels[i].name == *name {
            return Some(i);
        }
        i = i + 1;
    }
    None
}

fn find_config(config: &Vec<(String, String)>, name: &String) -> (r: Option<usize>)
    ensures
        r is None <==> forall|j: int| 0 <= j < config@.len() ==> (#[trigger] config@[j]).0@ != name@,
        r is Some ==> r->0 < config@.len() && config@[r->0 as int].0@ == name@
            && forall|j: int| 0 <= j < r->0 ==> (#[trigger] config@[j]).0@ != name@,
{
    let mut i: usize = 0;
    while i < config.len()
        invariant
            i <= config.len(),
            forall|j: int| 0 <= j < i ==> (#[trigger] config@[j]).0@ != name@,
        decreases config.len() - i,
    {
        if config[i].0 == *name {
            return Some(i);
        }
        i = i + 1;
    }
    None
}

/// What to do for one source channel when provisioning.
#[derive(Debug)]
pub enum ChannelPlan {
    /// A channel of that name exists in a provisioned category.
    Deployed,
    /// Create this channel.
    Create(ChannelPost),
    /// The configuration names no category for the channel: it is skipped.
    Unconfigured,
    /// The configured category was not provisioned.
    CategoryMissing(String),
}

pub open spec fn configured(c: Seq<(String, String)>, name: Seq<char>) -> bool {
    exists|i: int| 0 <= i < c.len() && (#[trigger] c[i]).0@ == name
}

/// Decides for the source channel `name`: skip it as unconfigured where the
/// configuration has no entry for it; else keep an existing channel of that
/// name; else create it inside the category that the configuration gives it.
pub fn plan_channel(
    name: &String,
    config: &ChannelConfig,
    deployed: &Vec<ChannelGet>,
    categories: &Vec<(String, ChannelId)>,
) -> (r: ChannelPlan)
    ensures
        !configured(config.spec_entries(), name@) <==> r is Unconfigured,
        forall|i: int| 0 <= i < config.spec_entries().len() && (#[trigger] config.spec_entries()[i]).0@ == name@ ==> {
            let category = config.spec_entries()[i].1@;
            &&& (exists|j: int| 0 <= j < deployed@.len() && (#[trigger] deployed@[j]).name@ == name@) ==> r is Deployed
            &&& (forall|j: int| 0 <= j < deployed@.len() ==> (#[trigger] deployed@[j]).name@ != name@) ==> {
                &&& (forall|k: int| 0 <= k < categories@.len() ==> (#[trigger] categories@[k]).0@ != category)
                    ==> (r matches ChannelPlan::CategoryMissing(c) && c@ == category)
                &&& forall|k: int| 0 <= k < categories@.len() && (#[trigger] categories@[k]).0@ == category
                    && (forall|l: int| 0 <= l < k ==> (#[trigger] categories@[l]).0@ != category) ==> {
                    &&& r matches ChannelPlan::Create(post)
                    &&& post.name@ == name@
                    &&& post.channel_type == ChannelType::GuildText
                    &&& post.parent_id matches Some(p) && p@ == categories@[k].1@
                }
            }
        },
{
    let entries = config.entries();
    match find_config(entries, name) {
        None => ChannelPlan::Unconfigured,
        Some(i) => {
            assert forall|l: int| 0 <= l < entries@.len() && (#[trigger] entries@[l]).0@ == name@ implies l == i by {
                if l != i {
                    assert(entries@[i as int].0@ == name@);
                }
            }
            if find_channel(deployed, name).is_some() {
                return ChannelPlan::Deployed;
            }
            let category = &entries[i].1;
            match has_pair_named(categories, category) {
                None => ChannelPlan::CategoryMissing(category.clone()),
                Some(k) => ChannelPlan::Create(ChannelPost {
                    name: name.clone(),
                    channel_type: ChannelType::GuildText,
                    parent_id: Some(categories[k].1.duplicate()),
                }),
            }
        },
    }
}

/// The channels among `existing` whose names `sources` holds, in order.
pub open spec fn channels_named(existing: Seq<ChannelGetView>, sources: Seq<Seq<char>>) -> Seq<ChannelGetView>
    decreases existing.len(),
{
    if existing.len() == 0 {
        Seq::empty()
    } else {
        let rest = channels_named(existing.drop_last(), sources);
        if sources.contains(existing.last().name) {
            rest.push(existing.last())
        } else {
            rest
        }
    }
}

pub open spec fn sources_of(c: Seq<(String, String)>) -> Seq<Seq<char>> {
    c.map_values(|p: (String, String)| p.0@)
}

/// The channels of `deployed` that the configuration names: those the
/// migration replays into. A channel that the configuration does not name
/// is left out, whatever category it sits in.
pub fn configured_channels(deployed: &Vec<ChannelGet>, config: &ChannelConfig) -> (r: Vec<ChannelGet>)
    ensures
        channels_view(r@) == channels_named(channels_view(deployed@), sources_of(config.spec_entries())),
{
    let entries = config.entries();
    let mut r: Vec<ChannelGet> = Vec::new();
    let mut i: usize = 0;
    while i < deployed.len()
        invariant
            entries@ == config.spec_entries(),
            i <= deployed.len(),
            channels_view(r@) == channels_named(channels_view(deployed@).take(i as int), sources_of(entries@)),
        decreases deployed.len() - i,
    {
        let c = &deployed[i];
        assert(channels_view(deployed@).take(i + 1).drop_last() =~= channels_view(deployed@).take(i as int));
        let ghost before = r@;
        let found = find_config(entries, &c.name);
        proof {
            if sources_of(entries@).contains(c.name@) {
                let j = choose|j: int| 0 <= j < sources_of(entries@).len() && sources_of(entries@)[j] == c.name@;
                assert(entries@[j].0@ == c.name@);
            }
            if found is Some {
                assert(sources_of(entries@)[found->0 as int] == c.name@);
            }
        }
        if found.is_some() {
            r.push(c.duplicate());
            assert(channels_view(r@) =~= channels_view(before).push(c@));
        }
        i = i + 1;
    }
    assert(channels_view(deployed@).take(deployed.len() as int) =~= channels_view(deployed@));
    r
}

} // verus!
