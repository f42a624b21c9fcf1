//! The serialized form of an [`Authorization`]: the plaintext that the token
//! codec seals inside a credential token.
//!
//! The format is a fixed JSON-shaped frame,
//! `{"username":"<escaped name>","scope":"<scope>"}`, where `"` and `\` in
//! the name are escaped with a backslash. Serialising and parsing are both
//! verified, and parsing a serialised authorization is proved to give the
//! original back.

use crate::model::{Authorization, AuthorizationScope};
use crate::strings::{chars_to_string, str_to_chars};
use vstd::prelude::*;

verus! {

use crate::model::AuthView;

/// How one character of a username is written in the frame.
pub open spec fn esc_char(c: char) -> Seq<char> {
    if c == '"' || c == '\\' {
        seq!['\\', c]
    } else {
        seq![c]
    }
}

/// A username, escaped for the frame.
pub open spec fn esc(s: Seq<char>) -> Seq<char>
    decreases s.len(),
{
    if s.len() == 0 {
        Seq::empty()
    } else {
        esc_char(s[0]) + esc(s.skip(1))
    }
}

/// Reading an escaped username back: scans `s` up to the first unescaped
/// closing quote, and yields the unescaped content together with the number
/// of characters consumed, the quote included. `None` when no well-formed
/// content ends in a quote.
pub open spec fn unesc(s: Seq<char>) -> Option<(Seq<char>, int)>
    decreases s.len(),
{
    if s.len() == 0 {
        None
    } else if s[0] == '"' {
        Some((Seq::empty(), 1))
    } else if s[0] == '\\' {
        if s.len() >= 2 && (s[1] == '"' || s[1] == '\\') {
            match unesc(s.skip(2)) {
                Some(p) => Some((seq![s[1]] + p.0, p.1 + 2)),
                None => None,
            }
        } else {
            None
        }
    } else {
        match unesc(s.skip(1)) {
            Some(p) => Some((seq![s[0]] + p.0, p.1 + 1)),
            None => None,
        }
    }
}

/// The opening of the frame, up to and including the quote that starts the
/// username.
pub open spec fn frame_prefix() -> Seq<char> {
    seq!['{', '"', 'u', 's', 'e', 'r', 'n', 'a', 'm', 'e', '"', ':', '"']
}

/// The name of a scope on the wire.
pub open spec fn scope_name(scope: AuthorizationScope) -> Seq<char> {
    match scope {
        AuthorizationScope::SessionAuth => seq!['S', 'e', 's', 's', 'i', 'o', 'n', 'A', 'u', 't', 'h'],
        AuthorizationScope::LinkAuth => seq!['L', 'i', 'n', 'k', 'A', 'u', 't', 'h'],
    }
}

/// What follows the quote that closes the username.
pub open spec fn frame_tail(scope: AuthorizationScope) -> Seq<char> {
    seq![',', '"', 's', 'c', 'o', 'p', 'e', '"', ':', '"'] + scope_name(scope) + seq!['"', '}']
}

/// The serialised form of an authorization.
pub open spec fn serialize_spec(a: AuthView) -> Seq<char> {
    frame_prefix() + esc(a.username) + seq!['"'] + frame_tail(a.scope)
}

/// What parsing a plaintext yields: the authorization it spells, or nothing.
pub open spec fn parse_spec(p: Seq<char>) -> Option<AuthView> {
    if p.len() >= 13 && p.subrange(0, 13) == frame_prefix() {
        match unesc(p.skip(13)) {
            Some(pr) => {
                let rest = p.skip(13 + pr.1);
                if rest == frame_tail(AuthorizationScope::SessionAuth) {
                    Some(AuthView { username: pr.0, scope: AuthorizationScope::SessionAuth })
                } else if rest == frame_tail(AuthorizationScope::LinkAuth) {
                    Some(AuthView { username: pr.0, scope: AuthorizationScope::LinkAuth })
                } else {
                    None
                }
            },
            None => None,
        }
    } else {
        None
    }
}

/// Escaping one more character appends its escaped form.
proof fn lemma_esc_add(a: Seq<char>, b: Seq<char>)
    ensures
        esc(a + b) == esc(a) + esc(b),
    decreases a.len(),
{
    if a.len() == 0 {
        assert(a + b =~= b);
        assert(esc(a) + esc(b) =~= esc(b));
    } else {
        assert((a + b).len() > 0);
        assert((a + b)[0] == a[0]);
        assert((a + b).skip(1) =~= a.skip(1) + b);
        lemma_esc_add(a.skip(1), b);
        assert(esc(a + b) =~= esc_char(a[0]) + (esc(a.skip(1)) + esc(b)));
        assert(esc_char(a[0]) + (esc(a.skip(1)) + esc(b)) =~= (esc_char(a[0]) + esc(a.skip(1))) + esc(b));
    }
}

/// The escaped form of a single character.
proof fn lemma_esc_one(c: char)
    ensures
        esc(seq![c]) == esc_char(c),
{
    let s = seq![c];
    assert(s.len() == 1);
    assert(s[0] == c);
    assert(s.skip(1) =~= Seq::<char>::empty());
    assert(esc(Seq::<char>::empty()) =~= Seq::<char>::empty());
    assert(esc(s.skip(1)) =~= Seq::<char>::empty());
    assert(esc(s) =~= esc_char(c) + Seq::<char>::empty());
    assert(esc_char(c) + Seq::<char>::empty() =~= esc_char(c));
}

/// Escaping `s.push(c)` appends `esc_char(c)` to `esc(s)`.
proof fn lemma_esc_push(s: Seq<char>, c: char)
    ensures
        esc(s.push(c)) == esc(s) + esc_char(c),
{
    assert(s.push(c) =~= s + seq![c]);
    lemma_esc_add(s, seq![c]);
    lemma_esc_one(c);
}

/// Scanning an escaped username followed by its closing quote gives the
/// username back and consumes exactly through that quote, whatever follows.
proof fn lemma_unesc_esc(u: Seq<char>, rest: Seq<char>)
    ensures
        unesc(esc(u) + seq!['"'] + rest) == Some((u, esc(u).len() + 1 as int)),
    decreases u.len(),
{
    let t = esc(u) + seq!['"'] + rest;
    if u.len() == 0 {
        assert(esc(u) =~= Seq::<char>::empty());
        assert(t[0] == '"');
        assert(unesc(t) == Some((Seq::<char>::empty(), 1int)));
        assert(Seq::<char>::empty() =~= u);
    } else {
        let u1 = u.skip(1);
        lemma_unesc_esc(u1, rest);
        assert(esc(u) =~= esc_char(u[0]) + esc(u1));
        if u[0] == '"' || u[0] == '\\' {
            assert(esc_char(u[0]) =~= seq!['\\', u[0]]);
            assert(t.len() == esc(u).len() + 1 + rest.len());
            assert(t[0] == '\\');
            assert(t[1] == u[0]);
            assert(t.skip(2) =~= esc(u1) + seq!['"'] + rest);
            assert(unesc(t.skip(2)) == Some((u1, esc(u1).len() + 1 as int)));
            assert(unesc(t) == Some((seq![u[0]] + u1, esc(u1).len() + 1 + 2 as int)));
            assert(seq![u[0]] + u1 =~= u);
            assert(esc(u).len() == 2 + esc(u1).len());
        } else {
            assert(esc_char(u[0]) =~= seq![u[0]]);
            assert(t[0] == u[0]);
            assert(t.skip(1) =~= esc(u1) + seq!['"'] + rest);
            assert(unesc(t.skip(1)) == Some((u1, esc(u1).len() + 1 as int)));
            assert(unesc(t) == Some((seq![u[0]] + u1, esc(u1).len() + 1 + 1 as int)));
            assert(seq![u[0]] + u1 =~= u);
            assert(esc(u).len() == 1 + esc(u1).len());
        }
    }
}

/// The round-trip law of the payload format: parsing a serialised
/// authorization yields exactly that authorization, for every username and
/// scope.
pub proof fn lemma_parse_serialize(a: AuthView)
    ensures
        parse_spec(serialize_spec(a)) == Some(a),
{
    let p = serialize_spec(a);
    let e = esc(a.username);
    assert(p =~= frame_prefix() + (e + seq!['"'] + frame_tail(a.scope)));
    assert(p.len() >= 13);
    assert(p.subrange(0, 13) =~= frame_prefix());
    assert(p.skip(13) =~= e + seq!['"'] + frame_tail(a.scope));
    lemma_unesc_esc(a.username, frame_tail(a.scope));
    let pr = unesc(p.skip(13)).unwrap();
    assert(pr.0 == a.username);
    assert(pr.1 == e.len() + 1);
    assert(p.skip(13 + pr.1) =~= frame_tail(a.scope));
    assert(frame_tail(AuthorizationScope::SessionAuth).len() == 23);
    assert(frame_tail(AuthorizationScope::LinkAuth).len() == 20);
    match a.scope {
        AuthorizationScope::SessionAuth => {
            assert(parse_spec(p) == Some(AuthView { username: pr.0, scope: AuthorizationScope::SessionAuth }));
        },
        AuthorizationScope::LinkAuth => {
            assert(p.skip(13 + pr.1) != frame_tail(AuthorizationScope::SessionAuth));
            assert(parse_spec(p) == Some(AuthView { username: pr.0, scope: AuthorizationScope::LinkAuth }));
        },
    }
}

/// The frame's opening, as a vector.
fn build_prefix() -> (r: Vec<char>)
    ensures
        r@ == frame_prefix(),
{
    let mut v: Vec<char> = Vec::new();
    v.push('{');
    v.push('"');
    v.push('u');
    v.push('s');
    v.push('e');
    v.push('r');
    v.push('n');
    v.push('a');
    v.push('m');
    v.push('e');
    v.push('"');
    v.push(':');
    v.push('"');
    proof {
        assert(v@ =~= frame_prefix());
    }
    v
}

/// The frame's tail for a scope, as a vector.
fn build_tail(scope: AuthorizationScope) -> (r: Vec<char>)
    ensures
        r@ == frame_tail(scope),
{
    let mut v: Vec<char> = Vec::new();
    v.push(',');
    v.push('"');
    v.push('s');
    v.push('c');
    v.push('o');
    v.push('p');
    v.push('e');
    v.push('"');
    v.push(':');
    v.push('"');
    match scope {
        AuthorizationScope::SessionAuth => {
            v.push('S');
            v.push('e');
            v.push('s');
            v.push('s');
            v.push('i');
            v.push('o');
            v.push('n');
        },
        AuthorizationScope::LinkAuth => {
            v.push('L');
            v.push('i');
            v.push('n');
            v.push('k');
        },
    }
    v.push('A');
    v.push('u');
    v.push('t');
    v.push('h');
    v.push('"');
    v.push('}');
    proof {
        assert(v@ =~= frame_tail(scope));
    }
    v
}

/// Serialises an authorization into the frame that the token codec seals.
pub fn serialize_authorization(a: &Authorization) -> (r: String)
    ensures
        r@ == serialize_spec(a@),
{
    let mut out = build_prefix();
    let name_chars = str_to_chars(a.username.as_str());
    let n = name_chars.len();
    let mut i: usize = 0;
    while i < n
        invariant
            i <= n,
            n == name_chars@.len(),
            name_chars@ == a.username@,
            out@ == frame_prefix() + esc(name_chars@.subrange(0, i as int)),
        decreases n - i,
    {
        let c = name_chars[i];
        if c == '"' || c == '\\' {
            out.push('\\');
            out.push(c);
        } else {
            out.push(c);
        }
        proof {
            let before = name_chars@.subrange(0, i as int);
            assert(name_chars@.subrange(0, i + 1 as int) =~= before.push(c));
            lemma_esc_push(before, c);
            assert(out@ =~= frame_prefix() + (esc(before) + esc_char(c)));
            assert(frame_prefix() + (esc(before) + esc_char(c)) =~= frame_prefix() + esc(before) + esc_char(c));
        }
        i = i + 1;
    }
    proof {
        assert(name_chars@.subrange(0, n as int) =~= name_chars@);
    }
    out.push('"');
    let mut tail = build_tail(a.scope);
    out.append(&mut tail);
    proof {
        assert(out@ =~= serialize_spec(a@));
    }
    chars_to_string(&out)
}

/// Whether `v` starting at `start` spells exactly `t` through the end.
fn suffix_equals(v: &Vec<char>, start: usize, t: &Vec<char>) -> (r: bool)
    requires
        start <= v@.len(),
    ensures
        r == (v@.skip(start as int) == t@),
{
    if v.len() - start != t.len() {
        proof {
            assert(v@.skip(start as int).len() != t@.len());
        }
        return false;
    }
    let m = t.len();
    let mut j: usize = 0;
    while j < m
        invariant
            j <= m,
            m == t@.len(),
            start + m <= v@.len(),
            m == v@.len() - start,
            v@.len() <= usize::MAX,
            forall|k: int| 0 <= k < j ==> v@[start + k] == t@[k],
        decreases m - j,
    {
        if v[start + j] != t[j] {
            proof {
                assert(v@.skip(start as int)[j as int] == v@[start + j]);
            }
            return false;
        }
        j = j + 1;
    }
    proof {
        assert(v@.skip(start as int) =~= t@);
    }
    true
}

/// Whether `v` begins with `t`.
fn prefix_equals(v: &Vec<char>, t: &Vec<char>) -> (r: bool)
    requires
        t@.len() <= v@.len(),
    ensures
        r == (v@.subrange(0, t@.len() as int) == t@),
{
    let m = t.len();
    let mut j: usize = 0;
    while j < m
        invariant
            j <= m,
            m == t@.len(),
            m <= v@.len(),
            forall|k: int| 0 <= k < j ==> v@[k] == t@[k],
        decreases m - j,
    {
        if v[j] != t[j] {
            proof {
                assert(v@.subrange(0, m as int)[j as int] == v@[j as int]);
            }
            return false;
        }
        j = j + 1;
    }
    proof {
        assert(v@.subrange(0, m as int) =~= t@);
    }
    true
}

/// Scans the escaped username of a frame, starting at `start`, through its
/// closing quote.
fn unescape_from(v: &Vec<char>, start: usize) -> (r: Option<(Vec<char>, usize)>)
    requires
        start <= v@.len(),
    ensures
        match r {
            Some(p) => {
                &&& unesc(v@.skip(start as int)) == Some((p.0@, p.1 as int))
                &&& start + p.1 <= v@.len()
            },
            None => unesc(v@.skip(start as int)) is None,
        },
{
    let n = v.len();
    let mut out: Vec<char> = Vec::new();
    let mut i: usize = start;
    loop
        invariant
            start <= i <= n,
            n == v@.len(),
            match unesc(v@.skip(i as int)) {
                Some(p) => unesc(v@.skip(start as int)) == Some((out@ + p.0, i - start + p.1)),
                None => unesc(v@.skip(start as int)) is None,
            },
        decreases n - i,
    {
        if i >= n {
            proof {
                assert(v@.skip(i as int).len() == 0);
            }
            return None;
        }
        let c = v[i];
        proof {
            assert(v@.skip(i as int)[0] == v@[i as int]);
            assert(v@.skip(i as int).len() == n - i);
        }
        if c == '"' {
            proof {
                assert(unesc(v@.skip(i as int)) == Some((Seq::<char>::empty(), 1int)));
                assert(out@ + Seq::<char>::empty() =~= out@);
            }
            return Some((out, i - start + 1));
        } else if c == '\\' {
            if i + 1 >= n {
                proof {
                    assert(v@.skip(i as int).len() < 2);
                    assert(unesc(v@.skip(i as int)) is None);
                }
                return None;
            }
            let d = v[i + 1];
            proof {
                assert(v@.skip(i as int)[1] == v@[i + 1 as int]);
            }
            if d == '"' || d == '\\' {
                out.push(d);
                proof {
                    let s = v@.skip(i as int);
                    assert(s.skip(2) =~= v@.skip(i + 2 as int));
                    match unesc(v@.skip(i + 2 as int)) {
                        Some(p2) => {
                            assert(unesc(s) == Some((seq![d] + p2.0, p2.1 + 2)));
                            assert((out@.drop_last() + (seq![d] + p2.0)) =~= (out@ + p2.0));
                        },
                        None => {
                            assert(unesc(s) is None);
                        },
                    }
                }
                i = i + 2;
            } else {
                proof {
                    assert(unesc(v@.skip(i as int)) is None);
                }
                return None;
            }
        } else {
            out.push(c);
            proof {
                let s = v@.skip(i as int);
                assert(s.skip(1) =~= v@.skip(i + 1 as int));
                match unesc(v@.skip(i + 1 as int)) {
                    Some(p2) => {
                        assert(unesc(s) == Some((seq![c] + p2.0, p2.1 + 1)));
                        assert((out@.drop_last() + (seq![c] + p2.0)) =~= (out@ + p2.0));
                    },
                    None => {
                        assert(unesc(s) is None);
                    },
                }
            }
            i = i + 1;
        }
    }
}

/// Parses a plaintext back into the authorization it spells, if any.
pub fn parse_authorization(p: &str) -> (r: Option<Authorization>)
    ensures
        match r {
            Some(a) => parse_spec(p@) == Some(a@),
            None => parse_spec(p@) is None,
        },
{
    let v = str_to_chars(p);
    if v.len() < 13 {
        return None;
    }
    let pre = build_prefix();
    if !prefix_equals(&v, &pre) {
        return None;
    }
    match unescape_from(&v, 13) {
        None => None,
        Some((content, consumed)) => {
            let rest_start = 13 + consumed;
            let tail_session = build_tail(AuthorizationScope::SessionAuth);
            let tail_link = build_tail(AuthorizationScope::LinkAuth);
            proof {
                assert(p@.skip(13 + consumed as int) == p@.skip(rest_start as int));
            }
            if suffix_equals(&v, rest_start, &tail_session) {
                let username = chars_to_string(&content);
                Some(Authorization { username, scope: AuthorizationScope::SessionAuth })
            } else if suffix_equals(&v, rest_start, &tail_link) {
                let username = chars_to_string(&content);
                Some(Authorization { username, scope: AuthorizationScope::LinkAuth })
            } else {
                None
            }
        },
    }
}

} // verus!
