//! The text posted for a source message.
use vstd::prelude::*;

use crate::slack::{tokyo_rfc2822, TimeStamp, User};
use crate::text::{append_all, chars_of, occurs_at, string_of};
use vstd::string::StringExecFns;

verus! {

broadcast use vstd::string::group_string_axioms;

/// A user-id-to-name table as plain values.
pub open spec fn pairs_view(dict: Seq<(String, String)>) -> Seq<(Seq<char>, Seq<char>)> {
    dict.map_values(|p: (String, String)| (p.0@, p.1@))
}

/// Whether `c` can be part of a user id: an ASCII letter or digit.
pub open spec fn is_id_char(c: char) -> bool {
    ('0' <= c && c <= '9') || ('A' <= c && c <= 'Z') || ('a' <= c && c <= 'z')
}

fn id_char(c: char) -> (r: bool)
    ensures
        r == is_id_char(c),
{
    ('0' <= c && c <= '9') || ('A' <= c && c <= 'Z') || ('a' <= c && c <= 'z')
}

/// Whether `id` stands at the start of `s` as a whole token: `boundary` says
/// that no id character comes just before, and none comes just after.
pub open spec fn token_at(s: Seq<char>, boundary: bool, id: Seq<char>) -> bool {
    &&& boundary
    &&& 0 < id.len() <= s.len()
    &&& s.take(id.len() as int) == id
    &&& (id.len() == s.len() || !is_id_char(s[id.len() as int]))
}

/// The first entry from `k` on whose id stands at the start of `s` as a
/// whole token, or the table's length if none does.
pub open spec fn first_token(table: Seq<(Seq<char>, Seq<char>)>, s: Seq<char>, boundary: bool, k: int) -> int
    decreases table.len() - k,
{
    if k < 0 || k >= table.len() {
        table.len() as int
    } else if token_at(s, boundary, table[k].0) {
        k
    } else {
        first_token(table, s, boundary, k + 1)
    }
}

/// `s` with every whole-token occurrence of an id of `table` replaced by its
/// name, in one pass from the left; a name put in is not read again.
/// `boundary` says whether the text before `s` ends in no id character.
pub open spec fn substitute(table: Seq<(Seq<char>, Seq<char>)>, s: Seq<char>, boundary: bool) -> Seq<char>
    decreases s.len(),
{
    if s.len() == 0 {
        Seq::empty()
    } else {
        let k = first_token(table, s, boundary, 0);
        if 0 <= k < table.len() && 0 < table[k].0.len() <= s.len() {
            table[k].1 + substitute(table, s.skip(table[k].0.len() as int), !is_id_char(table[k].0.last()))
        } else {
            seq![s[0]] + substitute(table, s.skip(1), !is_id_char(s[0]))
        }
    }
}

/// `s` with each user id of `pairs` that stands as a whole token replaced
/// by the user's name.
pub open spec fn rename_all(pairs: Seq<(Seq<char>, Seq<char>)>, s: Seq<char>) -> Seq<char> {
    substitute(pairs, s, true)
}

/// Every id is a non-empty run of id characters.
pub open spec fn ids_are_tokens(table: Seq<(Seq<char>, Seq<char>)>) -> bool {
    forall|k: int| 0 <= k < table.len() ==> {
        &&& (#[trigger] table[k]).0.len() > 0
        &&& forall|i: int| 0 <= i < table[k].0.len() ==> is_id_char(#[trigger] table[k].0[i])
    }
}

/// No id appears twice.
pub open spec fn distinct_ids(table: Seq<(Seq<char>, Seq<char>)>) -> bool {
    forall|j: int, k: int| 0 <= j < k < table.len() ==> (#[trigger] table[j]).0 != (#[trigger] table[k]).0
}

proof fn lemma_first_token(table: Seq<(Seq<char>, Seq<char>)>, s: Seq<char>, boundary: bool, k: int)
    requires
        0 <= k <= table.len(),
    ensures
        k <= first_token(table, s, boundary, k) <= table.len(),
        first_token(table, s, boundary, k) < table.len() ==> token_at(
            s,
            boundary,
            table[first_token(table, s, boundary, k)].0,
        ),
        forall|j: int| k <= j < first_token(table, s, boundary, k) ==> !token_at(s, boundary, #[trigger] table[j].0),
    decreases table.len() - k,
{
    if k < table.len() && !token_at(s, boundary, table[k].0) {
        lemma_first_token(table, s, boundary, k + 1);
    }
}

proof fn lemma_first_token_is(table: Seq<(Seq<char>, Seq<char>)>, s: Seq<char>, boundary: bool, k: int, r: int)
    requires
        0 <= k <= r <= table.len(),
        forall|j: int| k <= j < r ==> !token_at(s, boundary, #[trigger] table[j].0),
        r == table.len() || token_at(s, boundary, table[r].0),
    ensures
        first_token(table, s, boundary, k) == r,
    decreases r - k,
{
    if k < r {
        lemma_first_token_is(table, s, boundary, k + 1, r);
    }
}

/// Two ids made of id characters that both stand at the start of `s` as
/// whole tokens are the same id.
proof fn lemma_token_unique(s: Seq<char>, boundary: bool, a: Seq<char>, b: Seq<char>)
    requires
        token_at(s, boundary, a),
        token_at(s, boundary, b),
        forall|i: int| 0 <= i < a.len() ==> is_id_char(#[trigger] a[i]),
        forall|i: int| 0 <= i < b.len() ==> is_id_char(#[trigger] b[i]),
    ensures
        a == b,
{
    if a.len() < b.len() {
        assert(s[a.len() as int] == s.take(b.len() as int)[a.len() as int]);
        assert(is_id_char(b[a.len() as int]));
    } else if b.len() < a.len() {
        assert(s[b.len() as int] == s.take(a.len() as int)[b.len() as int]);
        assert(is_id_char(a[b.len() as int]));
    }
}

/// Where ids are runs of id characters and none appears twice, the order of
/// the table does not matter: two tables with the same entries give the
/// same text.
pub proof fn law_substitution_ignores_table_order(
    t1: Seq<(Seq<char>, Seq<char>)>,
    t2: Seq<(Seq<char>, Seq<char>)>,
    s: Seq<char>,
    boundary: bool,
)
    requires
        ids_are_tokens(t1),
        distinct_ids(t1),
        distinct_ids(t2),
        forall|x: (Seq<char>, Seq<char>)| t1.contains(x) <==> t2.contains(x),
    ensures
        substitute(t1, s, boundary) == substitute(t2, s, boundary),
    decreases s.len(),
{
    if s.len() > 0 {
        lemma_first_token(t1, s, boundary, 0);
        lemma_first_token(t2, s, boundary, 0);
        let k1 = first_token(t1, s, boundary, 0);
        let k2 = first_token(t2, s, boundary, 0);
        if k1 < t1.len() {
            let p = t1[k1];
            assert(t1.contains(p));
            assert(t2.contains(p));
            let j = choose|j: int| 0 <= j < t2.len() && t2[j] == p;
            assert(token_at(s, boundary, t2[j].0));
            assert(k2 <= j);
            assert(t2.contains(t2[k2]));
            let i2 = choose|i: int| 0 <= i < t1.len() && t1[i] == t2[k2];
            assert(t1[i2] == t2[k2]);
            lemma_token_unique(s, boundary, p.0, t2[k2].0);
            if k2 != j {
                assert(t2[k2].0 == t2[j].0);
            }
            assert(t2[k2] == p);
            law_substitution_ignores_table_order(t1, t2, s.skip(p.0.len() as int), !is_id_char(p.0.last()));
        } else {
            if k2 < t2.len() {
                assert(t2.contains(t2[k2]));
                let i = choose|i: int| 0 <= i < t1.len() && t1[i] == t2[k2];
                assert(t1[i] == t2[k2]);
                assert(!token_at(s, boundary, t1[i].0));
            }
            law_substitution_ignores_table_order(t1, t2, s.skip(1), !is_id_char(s[0]));
        }
    }
}

/// Whether `id` stands in `s` at `at` as a whole token.
fn token_matches(s: &Vec<char>, at: usize, boundary: bool, id: &Vec<char>) -> (r: bool)
    requires
        at <= s.len(),
    ensures
        r == token_at(s@.skip(at as int), boundary, id@),
{
    let ghost rest = s@.skip(at as int);
    if !boundary || id.len() == 0 || id.len() > s.len() - at {
        return false;
    }
    let here = occurs_at(s, id, at);
    assert(rest.take(id.len() as int) =~= s@.subrange(at as int, at + id.len()));
    if !here {
        return false;
    }
    let end = at + id.len();
    if end == s.len() {
        true
    } else {
        assert(rest[id.len() as int] == s@[end as int]);
        !id_char(s[end])
    }
}

/// Replaces every user id of `dict` that stands in `src` as a whole token
/// (no id character just before or after it) by that user's name, in one
/// pass: a name put in is not searched again. Where two ids could stand at
/// the same place, the first entry of `dict` wins.
pub fn replace_slack_id_to_real_name(dict: &Vec<(String, String)>, src: &str) -> (r: String)
    ensures
        r@ == rename_all(pairs_view(dict@), src@),
{
    let ghost table = pairs_view(dict@);
    let mut ids: Vec<Vec<char>> = Vec::new();
    let mut names: Vec<Vec<char>> = Vec::new();
    let mut k: usize = 0;
    while k < dict.len()
        invariant
            table == pairs_view(dict@),
            k <= dict.len(),
            ids.len() == k,
            names.len() == k,
            forall|j: int| 0 <= j < k ==> (#[trigger] ids@[j])@ == table[j].0 && names@[j]@ == table[j].1,
        decreases dict.len() - k,
    {
        assert(table[k as int] == (dict@[k as int].0@, dict@[k as int].1@));
        let id = chars_of(dict[k].0.as_str());
        let name = chars_of(dict[k].1.as_str());
        let ghost old_ids = ids@;
        let ghost old_names = names@;
        ids.push(id);
        names.push(name);
        assert forall|j: int| 0 <= j < k + 1 implies (#[trigger] ids@[j])@ == table[j].0 && names@[j]@ == table[j].1 by {
            if j < k {
                assert(ids@[j] == old_ids[j]);
                assert(names@[j] == old_names[j]);
            }
        }
        k = k + 1;
    }
    let s = chars_of(src);
    let mut out: Vec<char> = Vec::new();
    let mut i: usize = 0;
    let mut boundary = true;
    assert(s@.skip(0) =~= s@);
    while i < s.len()
        invariant
            table == pairs_view(dict@),
            ids.len() == table.len(),
            names.len() == table.len(),
            forall|j: int| 0 <= j < table.len() ==> (#[trigger] ids@[j])@ == table[j].0 && names@[j]@ == table[j].1,
            s@ == src@,
            i <= s.len(),
            out@ + substitute(table, s@.skip(i as int), boundary) == substitute(table, s@, true),
        decreases s.len() - i,
    {
        let ghost rest = s@.skip(i as int);
        let ghost before = out@;
        let ghost b0 = boundary;
        let mut k: usize = 0;
        while k < ids.len() && !token_matches(&s, i, boundary, &ids[k])
            invariant
                ids.len() == table.len(),
                forall|j: int| 0 <= j < table.len() ==> (#[trigger] ids@[j])@ == table[j].0,
                rest == s@.skip(i as int),
                i <= s.len(),
                k <= ids.len(),
                forall|j: int| 0 <= j < k ==> !token_at(rest, boundary, #[trigger] table[j].0),
            decreases ids.len() - k,
        {
            k = k + 1;
        }
        proof {
            if k < ids.len() {
                assert(ids@[k as int]@ == table[k as int].0);
            }
            lemma_first_token_is(table, rest, boundary, 0, k as int);
        }
        if k < ids.len() {
            let id = &ids[k];
            let len = id.len();
            append_all(&mut out, &names[k]);
            boundary = !id_char(id[len - 1]);
            assert(rest.skip(len as int) =~= s@.skip(i + len));
            assert(out@ + substitute(table, s@.skip(i + len), boundary) =~= before + substitute(table, rest, b0));
            i = i + len;
        } else {
            out.push(s[i]);
            boundary = !id_char(s[i]);
            assert(rest.skip(1) =~= s@.skip(i + 1));
            assert(out@ + substitute(table, s@.skip(i + 1), boundary) =~= before + substitute(table, rest, b0));
            i = i + 1;
        }
    }
    assert(s@.skip(i as int) =~= Seq::<char>::empty());
    assert(out@ =~= substitute(table, s@, true));
    string_of(&out)
}

/// The id-to-name table of `users`: each user's id with its readable name.
pub fn user_names(users: &Vec<User>) -> (r: Vec<(String, String)>)
    ensures
        r.len() == users.len(),
        forall|i: int| 0 <= i < users.len() ==> (#[trigger] pairs_view(r@)[i]) == (users@[i].id@, users@[i].spec_readable_name()),
{
    let mut r: Vec<(String, String)> = Vec::new();
    let mut i: usize = 0;
    while i < users.len()
        invariant
            i <= users.len(),
            r.len() == i,
            forall|j: int| 0 <= j < i ==> (#[trigger] r@[j]).0@ == users@[j].id@ && r@[j].1@ == users@[j].spec_readable_name(),
        decreases users.len() - i,
    {
        let u = &users[i];
        r.push((u.id.clone(), String::from_str(u.readable_name())));
        i = i + 1;
    }
    r
}

/// The text of a message before names are filled in: the author in bold,
/// the time, and the message on the next line.
pub open spec fn framed_text(user: Seq<char>, date: Seq<char>, text: Seq<char>) -> Seq<char> {
    "**"@ + user + "** "@ + date + "\n"@ + text + "\n"@
}

/// The text posted for a message of `user` at `ts`: author and time as a
/// header, then the message, with every user id replaced by its name.
pub fn render_message(names: &Vec<(String, String)>, user: &str, ts: &TimeStamp, text: &str) -> (r: String)
    ensures
        r@ == rename_all(
            pairs_view(names@),
            framed_text(user@, tokyo_rfc2822(ts@.0 as i64, ts@.1 as u32), text@),
        ),
{
    let date = ts.jtc_date();
    let mut framed = String::from_str("**");
    framed.append(user);
    framed.append("** ");
    framed.append(date.as_str());
    framed.append("\n");
    framed.append(text);
    framed.append("\n");
    replace_slack_id_to_real_name(names, framed.as_str())
}

} // verus!
