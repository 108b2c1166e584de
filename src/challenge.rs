use vstd::prelude::*;

use crate::text::{has_prefix, str_eq};

verus! {

/// Unicode `White_Space`, the characters that `str::trim` removes.
pub open spec fn is_space(c: char) -> bool {
    ('\u{9}' <= c && c <= '\u{d}') || c == ' ' || c == '\u{85}' || c == '\u{a0}' || c
        == '\u{1680}' || ('\u{2000}' <= c && c <= '\u{200a}') || c == '\u{2028}' || c
        == '\u{2029}' || c == '\u{202f}' || c == '\u{205f}' || c == '\u{3000}'
}

/// The characters stripped at the ends: white space, or double quotes when `quotes`.
pub open spec fn strips(c: char, quotes: bool) -> bool {
    if quotes {
        c == '"'
    } else {
        is_space(c)
    }
}

pub open spec fn trim_front(s: Seq<char>, quotes: bool) -> Seq<char>
    decreases s.len(),
{
    if s.len() > 0 && strips(s[0], quotes) {
        trim_front(s.drop_first(), quotes)
    } else {
        s
    }
}

pub open spec fn trim_back(s: Seq<char>, quotes: bool) -> Seq<char>
    decreases s.len(),
{
    if s.len() > 0 && strips(s.last(), quotes) {
        trim_back(s.drop_last(), quotes)
    } else {
        s
    }
}

/// `s` without the stripped characters at either end.
pub open spec fn trimmed(s: Seq<char>, quotes: bool) -> Seq<char> {
    trim_back(trim_front(s, quotes), quotes)
}

/// The pieces of `s` between commas, as `str::split(',')` yields them.
pub open spec fn split_commas(s: Seq<char>) -> Seq<Seq<char>>
    decreases s.len(),
{
    if s.len() == 0 {
        seq![Seq::<char>::empty()]
    } else {
        let prev = split_commas(s.drop_last());
        if s.last() == ',' {
            prev.push(Seq::<char>::empty())
        } else {
            prev.update(prev.len() - 1, prev.last().push(s.last()))
        }
    }
}

/// Index of the first `c` in `s`, or the length of `s` when there is none.
pub open spec fn first_index(s: Seq<char>, c: char) -> int
    decreases s.len(),
{
    if s.len() == 0 {
        0
    } else if s[0] == c {
        0
    } else {
        1 + first_index(s.drop_first(), c)
    }
}

/// A `key=value` piece: both sides trimmed, the value without surrounding quotes.
pub open spec fn parse_part(part: Seq<char>) -> Option<(Seq<char>, Seq<char>)> {
    let t = trimmed(part, false);
    let e = first_index(t, '=');
    if e < t.len() {
        Some(
            (
                trimmed(t.subrange(0, e), false),
                trimmed(trimmed(t.subrange(e + 1, t.len() as int), false), true),
            ),
        )
    } else {
        None
    }
}

/// The parameters of the pieces, a later key replacing an earlier one.
pub open spec fn params_of(parts: Seq<Seq<char>>) -> Map<Seq<char>, Seq<char>>
    decreases parts.len(),
{
    if parts.len() == 0 {
        Map::empty()
    } else {
        let m = params_of(parts.drop_last());
        match parse_part(parts.last()) {
            Some((k, v)) => m.insert(k, v),
            None => m,
        }
    }
}

/// The parameters of a `WWW-Authenticate` value: those of a Bearer challenge, and
/// none for any other scheme.
pub open spec fn challenge_params(header: Seq<char>) -> Map<Seq<char>, Seq<char>> {
    let h = trimmed(header, false);
    if 7 <= h.len() && h.subrange(0, 7) == "Bearer "@ {
        params_of(split_commas(h.subrange(7, h.len() as int)))
    } else {
        Map::empty()
    }
}

/// Key/value pairs where a later pair replaces an earlier one with the same key.
pub open spec fn pairs_map(s: Seq<(String, String)>) -> Map<Seq<char>, Seq<char>>
    decreases s.len(),
{
    if s.len() == 0 {
        Map::empty()
    } else {
        pairs_map(s.drop_last()).insert(s.last().0@, s.last().1@)
    }
}

/// The parameters of an authentication challenge.
#[derive(Debug)]
pub struct ChallengeParams {
    pub pairs: Vec<(String, String)>,
}

impl View for ChallengeParams {
    type V = Map<Seq<char>, Seq<char>>;

    open spec fn view(&self) -> Map<Seq<char>, Seq<char>> {
        pairs_map(self.pairs@)
    }
}

proof fn lemma_pairs_map_lookup(s: Seq<(String, String)>, k: Seq<char>, i: int)
    requires
        0 <= i < s.len(),
        s[i].0@ == k,
        forall|j: int| i < j < s.len() ==> #[trigger] s[j].0@ != k,
    ensures
        pairs_map(s).contains_key(k),
        pairs_map(s)[k] == s[i].1@,
    decreases s.len(),
{
    if i < s.len() - 1 {
        assert(s.drop_last()[i] == s[i]);
        assert forall|j: int| i < j < s.drop_last().len() implies #[trigger] s.drop_last()[j].0@
            != k by {
            assert(s.drop_last()[j] == s[j]);
        }
        lemma_pairs_map_lookup(s.drop_last(), k, i);
        assert(s.last() == s[s.len() - 1]);
    }
}

proof fn lemma_pairs_map_absent(s: Seq<(String, String)>, k: Seq<char>)
    requires
        forall|j: int| 0 <= j < s.len() ==> #[trigger] s[j].0@ != k,
    ensures
        !pairs_map(s).contains_key(k),
    decreases s.len(),
{
    if s.len() > 0 {
        assert forall|j: int| 0 <= j < s.drop_last().len() implies #[trigger] s.drop_last()[j].0@
            != k by {
            assert(s.drop_last()[j] == s[j]);
        }
        lemma_pairs_map_absent(s.drop_last(), k);
        assert(s.last() == s[s.len() - 1]);
    }
}

impl ChallengeParams {
    pub fn new() -> (r: ChallengeParams)
        ensures
            r@ == Map::<Seq<char>, Seq<char>>::empty(),
    {
        ChallengeParams { pairs: Vec::new() }
    }

    pub fn insert(&mut self, key: String, value: String)
        ensures
            final(self)@ == old(self)@.insert(key@, value@),
    {
        let ghost before = self.pairs@;
        self.pairs.push((key, value));
        assert(self.pairs@.drop_last() == before);
    }

    /// The value of a key.
    pub fn get(&self, key: &str) -> (r: Option<String>)
        ensures
            r is Some <==> self@.contains_key(key@),
            r matches Some(v) ==> self@[key@] == v@,
    {
        let mut i: usize = self.pairs.len();
        while i > 0
            invariant
                0 <= i <= self.pairs@.len(),
                forall|j: int| i <= j < self.pairs@.len() ==> #[trigger] self.pairs@[j].0@ != key@,
            decreases i,
        {
            i = i - 1;
            if str_eq(self.pairs[i].0.as_str(), key) {
                proof {
                    lemma_pairs_map_lookup(self.pairs@, key@, i as int);
                }
                return Some(self.pairs[i].1.clone());
            }
        }
        proof {
            lemma_pairs_map_absent(self.pairs@, key@);
        }
        None
    }

    pub fn is_empty(&self) -> (r: bool)
        ensures
            r == (self@ == Map::<Seq<char>, Seq<char>>::empty()),
    {
        if self.pairs.len() == 0 {
            true
        } else {
            assert(self@.contains_key(self.pairs@.last().0@));
            assert(!Map::<Seq<char>, Seq<char>>::empty().contains_key(self.pairs@.last().0@));
            false
        }
    }
}

pub fn is_space_char(c: char) -> (r: bool)
    ensures
        r == is_space(c),
{
    ('\u{9}' <= c && c <= '\u{d}') || c == ' ' || c == '\u{85}' || c == '\u{a0}' || c
        == '\u{1680}' || ('\u{2000}' <= c && c <= '\u{200a}') || c == '\u{2028}' || c
        == '\u{2029}' || c == '\u{202f}' || c == '\u{205f}' || c == '\u{3000}'
}

fn strips_char(c: char, quotes: bool) -> (r: bool)
    ensures
        r == strips(c, quotes),
{
    if quotes {
        c == '"'
    } else {
        is_space_char(c)
    }
}

/// `s` without white space (or, when `quotes`, double quotes) at either end.
pub fn trim_str(s: &str, quotes: bool) -> (r: &str)
    ensures
        r@ == trimmed(s@, quotes),
{
    let n = s.unicode_len();
    let mut a: usize = 0;
    assert(s@.subrange(0, n as int) == s@);
    while a < n && strips_char(s.get_char(a), quotes)
        invariant
            n == s@.len(),
            0 <= a <= n,
            trim_front(s@, quotes) == trim_front(s@.subrange(a as int, n as int), quotes),
        decreases n - a,
    {
        assert(s@.subrange(a as int, n as int).drop_first() == s@.subrange(a + 1, n as int));
        a = a + 1;
    }
    assert(trim_front(s@.subrange(a as int, n as int), quotes) == s@.subrange(a as int, n as int));
    let t = s.substring_char(a, n);
    let m = n - a;
    let mut b: usize = m;
    assert(t@.subrange(0, m as int) == t@);
    while b > 0 && strips_char(t.get_char(b - 1), quotes)
        invariant
            m == t@.len(),
            0 <= b <= m,
            trim_back(t@, quotes) == trim_back(t@.subrange(0, b as int), quotes),
        decreases b,
    {
        assert(t@.subrange(0, b as int).drop_last() == t@.subrange(0, b - 1));
        b = b - 1;
    }
    assert(t@.subrange(0, m as int) == t@);
    t.substring_char(0, b)
}

/// Index of the first `c` in `s`, or the length of `s`.
pub fn find_char(s: &str, c: char) -> (r: usize)
    ensures
        r as int == first_index(s@, c),
        r <= s@.len(),
{
    let n = s.unicode_len();
    let mut i: usize = 0;
    assert(s@.subrange(0, n as int) == s@);
    while i < n && s.get_char(i) != c
        invariant
            n == s@.len(),
            0 <= i <= n,
            first_index(s@, c) == i + first_index(s@.subrange(i as int, n as int), c),
        decreases n - i,
    {
        assert(s@.subrange(i as int, n as int).drop_first() == s@.subrange(i + 1, n as int));
        i = i + 1;
    }
    i
}

/// Parses one `key=value` piece of a challenge.
pub fn parse_challenge_part(part: &str) -> (r: Option<(String, String)>)
    ensures
        match r {
            Some((k, v)) => parse_part(part@) == Some((k@, v@)),
            None => parse_part(part@) is None,
        },
{
    let t = trim_str(part, false);
    let n = t.unicode_len();
    let e = find_char(t, '=');
    if e < n {
        let key = trim_str(t.substring_char(0, e), false);
        let value = trim_str(trim_str(t.substring_char(e + 1, n), false), true);
        Some((String::from_str(key), String::from_str(value)))
    } else {
        None
    }
}

/// Parses a `WWW-Authenticate` header value: the `key="value"` parameters of a Bearer
/// challenge, and none for any other scheme.
pub fn parse_www_authenticate(header: &str) -> (r: ChallengeParams)
    ensures
        r@ == challenge_params(header@),
{
    let mut params = ChallengeParams::new();
    let h = trim_str(header, false);
    proof {
        reveal_strlit("Bearer ");
    }
    if !has_prefix(h, "Bearer ") {
        return params;
    }
    let n = h.unicode_len();
    let body = h.substring_char(7, n);
    let len = n - 7;
    let ghost done: Seq<Seq<char>> = Seq::empty();
    let mut start: usize = 0;
    let mut i: usize = 0;
    assert(body@.subrange(0, 0) == Seq::<char>::empty());
    assert(split_commas(Seq::<char>::empty()) == done.push(body@.subrange(0, 0)));
    while i < len
        invariant
            len == body@.len(),
            0 <= start <= i <= len,
            split_commas(body@.subrange(0, i as int)) == done.push(body@.subrange(start as int, i as int)),
            params@ == params_of(done),
        decreases len - i,
    {
        let c = body.get_char(i);
        let ghost prefix = body@.subrange(0, i + 1);
        assert(prefix.drop_last() == body@.subrange(0, i as int));
        assert(prefix.last() == c);
        if c == ',' {
            let piece = body.substring_char(start, i);
            let ghost next = done.push(piece@);
            assert(next.drop_last() == done);
            match parse_challenge_part(piece) {
                Some((k, v)) => {
                    params.insert(k, v);
                },
                None => {},
            }
            proof {
                done = next;
                assert(body@.subrange(i + 1, i + 1) == Seq::<char>::empty());
            }
            start = i + 1;
        } else {
            proof {
                let prev = done.push(body@.subrange(start as int, i as int));
                assert(body@.subrange(start as int, i + 1) =~= body@.subrange(start as int, i as int).push(c));
                assert(prev.last() == body@.subrange(start as int, i as int));
                assert(prev.update(prev.len() - 1, prev.last().push(c)) =~= done.push(
                    body@.subrange(start as int, i + 1),
                ));
            }
        }
        i = i + 1;
    }
    let piece = body.substring_char(start, len);
    let ghost all = done.push(piece@);
    assert(all.drop_last() == done);
    assert(body@.subrange(0, len as int) == body@);
    match parse_challenge_part(piece) {
        Some((k, v)) => {
            params.insert(k, v);
        },
        None => {},
    }
    params
}

/// One `key="value"` piece of a challenge.
pub open spec fn quoted_pair(k: Seq<char>, v: Seq<char>) -> Seq<char> {
    k + "=\""@ + v + "\""@
}

/// The pieces `k_i="v_i"` joined by commas.
pub open spec fn joined_pairs(keys: Seq<Seq<char>>, values: Seq<Seq<char>>) -> Seq<char>
    decreases keys.len(),
{
    if keys.len() <= 1 {
        if keys.len() == 1 {
            quoted_pair(keys[0], values[0])
        } else {
            Seq::empty()
        }
    } else {
        joined_pairs(keys.drop_last(), values.drop_last()) + ","@ + quoted_pair(
            keys.last(),
            values.last(),
        )
    }
}

/// A key that parses back as itself: no `,` or `=`, and no white space at its ends.
pub open spec fn plain_key(k: Seq<char>) -> bool {
    (forall|i: int| 0 <= i < k.len() ==> #[trigger] k[i] != ',' && k[i] != '=') && (k.len()
        == 0 || (!is_space(k[0]) && !is_space(k.last())))
}

/// A value that parses back as itself: no `,` or `"`.
pub open spec fn plain_value(v: Seq<char>) -> bool {
    forall|i: int| 0 <= i < v.len() ==> #[trigger] v[i] != ',' && v[i] != '"'
}

proof fn lemma_split_single(b: Seq<char>)
    requires
        forall|i: int| 0 <= i < b.len() ==> #[trigger] b[i] != ',',
    ensures
        split_commas(b) == seq![b],
    decreases b.len(),
{
    if b.len() > 0 {
        lemma_split_single(b.drop_last());
        assert(b.drop_last().push(b.last()) == b);
        assert(seq![b.drop_last()].update(0, b.drop_last().push(b.last())) =~= seq![b]);
    } else {
        assert(b == Seq::<char>::empty());
    }
}

proof fn lemma_split_append(a: Seq<char>, b: Seq<char>)
    requires
        forall|i: int| 0 <= i < b.len() ==> #[trigger] b[i] != ',',
    ensures
        split_commas(a + ","@ + b) == split_commas(a).push(b),
    decreases b.len(),
{
    reveal_strlit(",");
    let s = a + ","@ + b;
    if b.len() == 0 {
        assert(s.drop_last() =~= a);
        assert(s.last() == ',');
        assert(b == Seq::<char>::empty());
    } else {
        let b0 = b.drop_last();
        lemma_split_append(a, b0);
        assert(s.drop_last() =~= a + ","@ + b0);
        assert(s.last() == b.last());
        let prev = split_commas(a).push(b0);
        assert(prev.last() == b0);
        assert(b0.push(b.last()) =~= b);
        assert(prev.update(prev.len() - 1, prev.last().push(b.last())) =~= split_commas(a).push(b));
    }
}

proof fn lemma_first_index(k: Seq<char>, rest: Seq<char>, c: char)
    requires
        forall|i: int| 0 <= i < k.len() ==> #[trigger] k[i] != c,
        rest.len() > 0,
        rest[0] == c,
    ensures
        first_index(k + rest, c) == k.len(),
    decreases k.len(),
{
    if k.len() > 0 {
        assert((k + rest).drop_first() =~= k.drop_first() + rest);
        assert(k[0] != c);
        lemma_first_index(k.drop_first(), rest, c);
    } else {
        assert(k + rest =~= rest);
    }
}

proof fn lemma_trim_unchanged(s: Seq<char>, quotes: bool)
    requires
        s.len() == 0 || (!strips(s[0], quotes) && !strips(s.last(), quotes)),
    ensures
        trimmed(s, quotes) == s,
{
}

proof fn lemma_unquote(v: Seq<char>)
    requires
        plain_value(v),
    ensures
        trimmed("\""@ + v + "\""@, true) == v,
{
    reveal_strlit("\"");
    let s = "\""@ + v + "\""@;
    assert(s[0] == '"');
    assert(s.drop_first() =~= v + "\""@);
    let t = v + "\""@;
    if v.len() > 0 {
        assert(v[0] != '"');
        assert(t[0] == v[0]);
        assert(trim_front(s, true) == trim_front(t, true));
        assert(trim_front(t, true) == t);
        assert(t.last() == '"');
        assert(t.drop_last() =~= v);
        assert(v.last() == v[v.len() - 1]);
        assert(trim_back(t, true) == trim_back(v, true));
    } else {
        assert(t =~= "\""@);
        assert(t.len() == 1 && t[0] == '"');
        assert(t.drop_first() =~= Seq::<char>::empty());
        assert(trim_front(Seq::<char>::empty(), true) == Seq::<char>::empty());
        assert(trim_front(t, true) == Seq::<char>::empty());
        assert(trim_front(s, true) == trim_front(t, true));
    }
}

proof fn lemma_parse_quoted_pair(k: Seq<char>, v: Seq<char>)
    requires
        plain_key(k),
        plain_value(v),
    ensures
        parse_part(quoted_pair(k, v)) == Some((k, v)),
{
    reveal_strlit("=\"");
    reveal_strlit("\"");
    let p = quoted_pair(k, v);
    let rest = "=\""@ + v + "\""@;
    assert(p =~= k + rest);
    assert(rest[0] == '=');
    assert(p.last() == '"');
    assert(p[0] == if k.len() > 0 { k[0] } else { '=' });
    lemma_trim_unchanged(p, false);
    lemma_first_index(k, rest, '=');
    let e = k.len() as int;
    assert(p.subrange(0, e) =~= k);
    lemma_trim_unchanged(k, false);
    let q = p.subrange(e + 1, p.len() as int);
    assert(q =~= "\""@ + v + "\""@);
    assert(q[0] == '"');
    assert(q.last() == '"');
    lemma_trim_unchanged(q, false);
    lemma_unquote(v);
}

/// The parameters of the pairs, a later key replacing an earlier one.
pub open spec fn params_of_pairs(keys: Seq<Seq<char>>, values: Seq<Seq<char>>) -> Map<
    Seq<char>,
    Seq<char>,
>
    decreases keys.len(),
{
    if keys.len() == 0 {
        Map::empty()
    } else {
        params_of_pairs(keys.drop_last(), values.drop_last()).insert(keys.last(), values.last())
    }
}

proof fn lemma_params_of_joined(keys: Seq<Seq<char>>, values: Seq<Seq<char>>)
    requires
        keys.len() >= 1,
        keys.len() == values.len(),
        forall|i: int| 0 <= i < keys.len() ==> plain_key(#[trigger] keys[i]),
        forall|i: int| 0 <= i < values.len() ==> plain_value(#[trigger] values[i]),
    ensures
        params_of(split_commas(joined_pairs(keys, values))) == params_of_pairs(keys, values),
    decreases keys.len(),
{
    reveal_strlit("=\"");
    reveal_strlit("\"");
    let n = keys.len();
    let last = quoted_pair(keys[n - 1], values[n - 1]);
    assert(keys.last() == keys[n - 1]);
    assert(values.last() == values[n - 1]);
    assert(plain_key(keys[n - 1]));
    assert(plain_value(values[n - 1]));
    assert forall|i: int| 0 <= i < last.len() implies #[trigger] last[i] != ',' by {
        let k = keys[n - 1];
        let v = values[n - 1];
        if i < k.len() {
            assert(last[i] == k[i]);
        } else if i < k.len() + 2 {
        } else if i < k.len() + 2 + v.len() {
            assert(last[i] == v[i - k.len() - 2]);
        }
    }
    lemma_parse_quoted_pair(keys[n - 1], values[n - 1]);
    if n == 1 {
        lemma_split_single(last);
        assert(seq![last].drop_last() =~= Seq::<Seq<char>>::empty());
        assert(seq![last].last() == last);
        assert(params_of(seq![last].drop_last()) == Map::<Seq<char>, Seq<char>>::empty());
        assert(params_of(seq![last]) == Map::<Seq<char>, Seq<char>>::empty().insert(keys[0], values[0]));
        assert(params_of_pairs(keys.drop_last(), values.drop_last()) == Map::<Seq<char>, Seq<char>>::empty());
        assert(keys.drop_last() =~= Seq::<Seq<char>>::empty());
    } else {
        let ks = keys.drop_last();
        let vs = values.drop_last();
        assert forall|i: int| 0 <= i < ks.len() implies plain_key(#[trigger] ks[i]) by {
            assert(ks[i] == keys[i]);
        }
        assert forall|i: int| 0 <= i < vs.len() implies plain_value(#[trigger] vs[i]) by {
            assert(vs[i] == values[i]);
        }
        lemma_params_of_joined(ks, vs);
        lemma_split_append(joined_pairs(ks, vs), last);
        let parts = split_commas(joined_pairs(ks, vs)).push(last);
        assert(parts.drop_last() == split_commas(joined_pairs(ks, vs)));
        assert(parts.last() == last);
        assert(joined_pairs(keys, values) == joined_pairs(ks, vs) + ","@ + last);
        assert(params_of(parts) == params_of(split_commas(joined_pairs(ks, vs))).insert(keys[n - 1], values[n - 1]));
    }
}

proof fn lemma_params_of_pairs_contents(keys: Seq<Seq<char>>, values: Seq<Seq<char>>)
    requires
        keys.len() == values.len(),
        forall|i: int, j: int| 0 <= i < j < keys.len() ==> keys[i] != keys[j],
    ensures
        forall|i: int|
            0 <= i < keys.len() ==> params_of_pairs(keys, values).contains_key(#[trigger] keys[i])
                && params_of_pairs(keys, values)[keys[i]] == values[i],
        forall|k: Seq<char>|
            #[trigger] params_of_pairs(keys, values).contains_key(k) ==> exists|i: int|
                0 <= i < keys.len() && keys[i] == k,
    decreases keys.len(),
{
    if keys.len() > 0 {
        let ks = keys.drop_last();
        let vs = values.drop_last();
        lemma_params_of_pairs_contents(ks, vs);
        let m = params_of_pairs(keys, values);
        assert forall|i: int| 0 <= i < keys.len() implies m.contains_key(#[trigger] keys[i])
            && m[keys[i]] == values[i] by {
            if i < keys.len() - 1 {
                assert(ks[i] == keys[i]);
                assert(vs[i] == values[i]);
                assert(keys[i] != keys[keys.len() - 1]);
            }
        }
        assert forall|k: Seq<char>| #[trigger] m.contains_key(k) implies exists|i: int|
            0 <= i < keys.len() && keys[i] == k by {
            if k != keys.last() {
                assert(params_of_pairs(ks, vs).contains_key(k));
                let i = choose|i: int| 0 <= i < ks.len() && ks[i] == k;
                assert(keys[i] == k);
            } else {
                assert(keys[keys.len() - 1] == k);
            }
        }
    }
}

/// A Bearer challenge `Bearer k1="v1",k2="v2",...` parses to exactly the pairs
/// `k_i: v_i`, for distinct keys without `,` or `=` or white space at their ends, and
/// values without `,` or `"`.
pub proof fn lemma_challenge_round_trip(keys: Seq<Seq<char>>, values: Seq<Seq<char>>)
    requires
        keys.len() >= 1,
        keys.len() == values.len(),
        forall|i: int| 0 <= i < keys.len() ==> plain_key(#[trigger] keys[i]),
        forall|i: int| 0 <= i < values.len() ==> plain_value(#[trigger] values[i]),
        forall|i: int, j: int| 0 <= i < j < keys.len() ==> keys[i] != keys[j],
    ensures
        forall|i: int|
            0 <= i < keys.len() ==> challenge_params("Bearer "@ + joined_pairs(keys, values)).contains_key(
                #[trigger] keys[i],
            ) && challenge_params("Bearer "@ + joined_pairs(keys, values))[keys[i]] == values[i],
        forall|k: Seq<char>|
            #[trigger] challenge_params("Bearer "@ + joined_pairs(keys, values)).contains_key(k)
                ==> exists|i: int| 0 <= i < keys.len() && keys[i] == k,
{
    reveal_strlit("Bearer ");
    reveal_strlit("=\"");
    reveal_strlit("\"");
    let body = joined_pairs(keys, values);
    let h = "Bearer "@ + body;
    lemma_joined_ends_with_quote(keys, values);
    assert(h[0] == 'B');
    assert(h.last() == body.last());
    lemma_trim_unchanged(h, false);
    assert(h.subrange(0, 7) =~= "Bearer "@);
    assert(h.subrange(7, h.len() as int) =~= body);
    lemma_params_of_joined(keys, values);
    lemma_params_of_pairs_contents(keys, values);
}

proof fn lemma_joined_ends_with_quote(keys: Seq<Seq<char>>, values: Seq<Seq<char>>)
    requires
        keys.len() >= 1,
        keys.len() == values.len(),
    ensures
        joined_pairs(keys, values).len() > 0,
        joined_pairs(keys, values).last() == '"',
{
    reveal_strlit("=\"");
    reveal_strlit("\"");
    let n = keys.len();
    let last = quoted_pair(keys[n - 1], values[n - 1]);
    assert(keys.last() == keys[n - 1]);
    assert(values.last() == values[n - 1]);
    assert(last.last() == '"');
    if n > 1 {
        let j = joined_pairs(keys, values);
        assert(j.last() == last.last());
    }
}

} // verus!
