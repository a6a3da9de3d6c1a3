//! The compiled command matcher: a message invokes a command exactly when
//! its text is one registered prefix, then one alias, then optionally
//! `@identity`, then whitespace or the end of the text; the remainder
//! after the first whitespace run is the command's input.

use vstd::prelude::*;

use crate::commands::{CommandInput, CommandMeta};
use crate::text::{
    is_whitespace_char, is_ws, lemma_skip_ws_eq, skip_ws, spec_starts_with_at, split_ws,
    starts_with_from, tokenize,
};

verus! {

/// Position `i` is past the end of `t` or holds whitespace.
pub open spec fn ws_or_end(t: Seq<char>, i: int) -> bool {
    i == t.len() || (0 <= i < t.len() && is_ws(t[i]))
}

impl CommandMeta {
    /// The identity suffix `@ident` stands at `base` with whitespace or
    /// the end of the text after it.
    pub open spec fn suffix_hit(&self, base: int, t: Seq<char>) -> bool {
        match self.identity.deep_view() {
            Some(id) => spec_starts_with_at(t, seq!['@'] + id, base) && ws_or_end(
                t,
                base + 1 + id.len(),
            ),
            None => false,
        }
    }

    /// Where the matched head ends for prefix `p` and alias `a`: after the
    /// identity suffix when it is present and closed by whitespace or the
    /// end, else right after the alias.
    pub open spec fn hit_end(&self, p: Seq<char>, a: Seq<char>, t: Seq<char>) -> int {
        if self.suffix_hit(p.len() + a.len() as int, t) {
            p.len() + a.len() + 1 + self.identity.deep_view().unwrap().len() as int
        } else {
            p.len() + a.len() as int
        }
    }

    /// `t` invokes this command through prefix `p` and alias `a`.
    pub open spec fn hit(&self, p: Seq<char>, a: Seq<char>, t: Seq<char>) -> bool {
        &&& spec_starts_with_at(t, p, 0)
        &&& spec_starts_with_at(t, a, p.len() as int)
        &&& ws_or_end(t, self.hit_end(p, a, t))
    }

    /// `t` invokes this command through the prefix at `i` and the alias
    /// at `j`.
    pub open spec fn accepts_pair(&self, i: int, j: int, t: Seq<char>) -> bool {
        &&& 0 <= i < self.prefixes.deep_view().len()
        &&& 0 <= j < self.cmds.deep_view().len()
        &&& self.hit(self.prefixes.deep_view()[i], self.cmds.deep_view()[j], t)
    }

    /// `t` invokes this command through some registered prefix and alias.
    pub open spec fn accepts(&self, t: Seq<char>) -> bool {
        exists|i: int, j: int| self.accepts_pair(i, j, t)
    }

    /// Where the remainder starts: after the whitespace run that follows
    /// the matched head.
    pub open spec fn rest_start(&self, p: Seq<char>, a: Seq<char>, t: Seq<char>) -> int {
        skip_ws(t, self.hit_end(p, a, t))
    }

    /// The remainder of `t` for a hit through `p` and `a`: the text after
    /// the first whitespace run that follows the head, verbatim.
    pub open spec fn rest_of(&self, p: Seq<char>, a: Seq<char>, t: Seq<char>) -> Seq<char> {
        t.subrange(self.rest_start(p, a, t), t.len() as int)
    }
}

/// `ci` is the match that `m` produces for `t`: it records the first
/// accepting prefix and, for it, the first accepting alias; the remainder
/// after the first whitespace run, absent when empty; the remainder's
/// whitespace tokens; and a copy of `m`.
pub open spec fn is_match_result(m: &CommandMeta, t: Seq<char>, ci: &CommandInput, i: int, j: int) -> bool {
    let p = m.prefixes.deep_view()[i];
    let a = m.cmds.deep_view()[j];
    let rest = m.rest_of(p, a, t);
    &&& m.accepts_pair(i, j, t)
    &&& forall|i2: int, j2: int| m.accepts_pair(i2, j2, t) ==> i <= i2
    &&& forall|j2: int| m.accepts_pair(i, j2, t) ==> j <= j2
    &&& ci.prefix@ == p
    &&& ci.cmd@ == a
    &&& ci.input.deep_view() == if rest.len() == 0 {
        Option::<Seq<char>>::None
    } else {
        Option::<Seq<char>>::Some(rest)
    }
    &&& ci.args.deep_view() == tokenize(rest)
    &&& ci.meta.eqv(m)
}

/// A sequence without the `@` character.
pub open spec fn at_free(s: Seq<char>) -> bool {
    forall|k: int| 0 <= k < s.len() ==> (#[trigger] s[k]) != '@'
}

/// For every registered prefix and alias, the matcher accepts the prefix,
/// then the alias, then the end of the text or whitespace; the remainder
/// it captures is the exact text after the first following whitespace
/// run.
pub proof fn lemma_matcher_accepts_registered(
    m: &CommandMeta,
    i: int,
    j: int,
    tail: Seq<char>,
    t: Seq<char>,
)
    requires
        0 <= i < m.prefixes.deep_view().len(),
        0 <= j < m.cmds.deep_view().len(),
        t == m.prefixes.deep_view()[i] + m.cmds.deep_view()[j] + tail,
        tail.len() == 0 || is_ws(tail[0]),
    ensures
        m.accepts(t),
        m.rest_of(m.prefixes.deep_view()[i], m.cmds.deep_view()[j], t) == tail.subrange(
            skip_ws(tail, 0),
            tail.len() as int,
        ),
{
    let p = m.prefixes.deep_view()[i];
    let a = m.cmds.deep_view()[j];
    let base = p.len() + a.len() as int;
    assert(t.subrange(0, p.len() as int) =~= p);
    assert(t.subrange(p.len() as int, base) =~= a);
    assert(spec_starts_with_at(t, p, 0));
    assert(spec_starts_with_at(t, a, p.len() as int));
    if m.suffix_hit(base, t) {
        let id = m.identity.deep_view().unwrap();
        let suf = seq!['@'] + id;
        assert(t[base] == suf[0]);
        assert(t[base] == tail[0]);
        assert(false);
    }
    assert(m.hit_end(p, a, t) == base);
    if tail.len() == 0 {
        assert(base == t.len());
    } else {
        assert(t[base] == tail[0]);
    }
    assert(ws_or_end(t, base));
    assert(m.hit(p, a, t));
    assert(m.accepts_pair(i, j, t));
    assert(m.accepts(t));
    crate::text::lemma_skip_ws_bounds(tail, 0);
    let w = skip_ws(tail, 0);
    assert forall|k: int| base <= k < base + w implies is_ws(#[trigger] t[k]) by {
        assert(t[k] == tail[k - base]);
    }
    if w < tail.len() {
        assert(t[base + w] == tail[w]);
    }
    crate::text::lemma_skip_ws_eq(t, base, base + w);
    assert(m.rest_of(p, a, t) =~= tail.subrange(w, tail.len() as int));
}

/// After recompiling for identity `I`, the matcher accepts a registered
/// prefix and alias followed by `@I` and then whitespace or the end.
pub proof fn lemma_identity_suffix_accepted(
    m: &CommandMeta,
    i: int,
    j: int,
    tail: Seq<char>,
    t: Seq<char>,
)
    requires
        m.identity.deep_view() is Some,
        0 <= i < m.prefixes.deep_view().len(),
        0 <= j < m.cmds.deep_view().len(),
        t == m.prefixes.deep_view()[i] + m.cmds.deep_view()[j] + seq!['@']
            + m.identity.deep_view().unwrap() + tail,
        tail.len() == 0 || is_ws(tail[0]),
    ensures
        m.accepts(t),
{
    let p = m.prefixes.deep_view()[i];
    let a = m.cmds.deep_view()[j];
    let id = m.identity.deep_view().unwrap();
    let base = p.len() + a.len() as int;
    assert(t.subrange(0, p.len() as int) =~= p);
    assert(t.subrange(p.len() as int, base) =~= a);
    assert(spec_starts_with_at(t, p, 0));
    assert(spec_starts_with_at(t, a, p.len() as int));
    let suf = seq!['@'] + id;
    assert(t.subrange(base, base + suf.len() as int) =~= suf);
    assert(spec_starts_with_at(t, suf, base));
    let send = base + 1 + id.len() as int;
    if tail.len() == 0 {
        assert(send == t.len());
    } else {
        assert(t[send] == tail[0]);
    }
    assert(ws_or_end(t, send));
    assert(m.suffix_hit(base, t));
    assert(m.hit_end(p, a, t) == send);
    assert(m.hit(p, a, t));
    assert(m.accepts_pair(i, j, t));
}

/// After recompiling for identity `I`, a registered prefix and alias
/// followed by `@J` for any other whitespace-free identity `J` is
/// rejected, provided no registered prefix or alias holds whitespace or
/// the `@` character and `I` holds no whitespace.
pub proof fn lemma_wrong_identity_rejected(
    m: &CommandMeta,
    i: int,
    j: int,
    other: Seq<char>,
    tail: Seq<char>,
    t: Seq<char>,
)
    requires
        m.identity.deep_view() is Some,
        crate::text::ws_free(m.identity.deep_view().unwrap()),
        other != m.identity.deep_view().unwrap(),
        crate::text::ws_free(other),
        forall|k: int|
            0 <= k < m.prefixes.deep_view().len() ==> crate::text::ws_free(
                #[trigger] m.prefixes.deep_view()[k],
            ) && at_free(m.prefixes.deep_view()[k]),
        forall|k: int|
            0 <= k < m.cmds.deep_view().len() ==> crate::text::ws_free(
                #[trigger] m.cmds.deep_view()[k],
            ) && at_free(m.cmds.deep_view()[k]),
        0 <= i < m.prefixes.deep_view().len(),
        0 <= j < m.cmds.deep_view().len(),
        t == m.prefixes.deep_view()[i] + m.cmds.deep_view()[j] + seq!['@'] + other + tail,
        tail.len() == 0 || is_ws(tail[0]),
    ensures
        !m.accepts(t),
{
    let p = m.prefixes.deep_view()[i];
    let a = m.cmds.deep_view()[j];
    let id = m.identity.deep_view().unwrap();
    let big = p.len() + a.len() as int;
    assert forall|k: int| 0 <= k < big implies !is_ws(#[trigger] t[k]) && t[k] != '@' by {
        if k < p.len() {
            assert(t[k] == p[k]);
        } else {
            assert(t[k] == a[k - p.len()]);
        }
    }
    assert(t[big] == '@');
    assert forall|k: int| 0 <= k < other.len() implies t[big + 1 + k] == (#[trigger] other[k]) by {}
    assert forall|i2: int, j2: int| !(#[trigger] m.accepts_pair(i2, j2, t)) by {
        if 0 <= i2 < m.prefixes.deep_view().len() && 0 <= j2 < m.cmds.deep_view().len() {
            let p2 = m.prefixes.deep_view()[i2];
            let a2 = m.cmds.deep_view()[j2];
            if m.hit(p2, a2, t) {
                let small = p2.len() + a2.len() as int;
                if small > big {
                    if p2.len() > big {
                        assert(p2[big] == t[big]);
                        assert(p2[big] != '@');
                    } else {
                        assert(a2[big - p2.len()] == t[big]);
                        assert(a2[big - p2.len()] != '@');
                    }
                    assert(false);
                } else if small == big {
                    assert(!ws_or_end(t, small));
                    assert(m.suffix_hit(small, t));
                    let suf = seq!['@'] + id;
                    assert(t.subrange(small, small + suf.len() as int) == suf);
                    assert forall|k: int| 0 <= k < id.len() implies t[big + 1 + k] == (
                    #[trigger] id[k]) by {
                        assert(t.subrange(small, small + suf.len() as int)[1 + k] == suf[1 + k]);
                    }
                    if id.len() == other.len() {
                        assert(id =~= other);
                        assert(false);
                    } else if id.len() < other.len() {
                        assert(!ws_or_end(t, small + 1 + id.len()));
                        assert(false);
                    } else {
                        assert(big + 1 + other.len() + tail.len() == t.len());
                        assert(big + 1 + id.len() <= t.len());
                        assert(tail.len() > 0);
                        assert(id[other.len() as int] == t[big + 1 + other.len()]);
                        assert(t[big + 1 + other.len()] == tail[0]);
                        assert(false);
                    }
                } else {
                    assert(0 <= small < big);
                    assert(!ws_or_end(t, small));
                    if m.suffix_hit(small, t) {
                        let suf = seq!['@'] + id;
                        assert(t.subrange(small, small + suf.len() as int) == suf);
                        assert(t[small] == suf[0]);
                        assert(false);
                    }
                    assert(m.hit_end(p2, a2, t) == small);
                    assert(false);
                }
            }
        }
    }
    assert(!m.accepts(t));
}

/// Whether position `i` of `text` is past the end or holds whitespace.
fn ws_or_end_at(text: &str, i: usize) -> (r: bool)
    requires
        i <= text@.len(),
    ensures
        r == ws_or_end(text@, i as int),
{
    let n: usize = text.unicode_len();
    i == n || is_whitespace_char(text.get_char(i))
}

/// Match `text` against `command`; the result carries the matched prefix
/// and alias, the remainder and its tokens, and a copy of the command.
pub fn filter_command(command: &CommandMeta, text: &str) -> (r: Option<CommandInput>)
    ensures
        r is Some <==> command.accepts(text@),
        match r {
            Some(ci) => exists|i: int, j: int| #[trigger]
                is_match_result(command, text@, &ci, i, j),
            None => true,
        },
{
    let tlen: usize = text.unicode_len();
    let np: usize = command.prefixes.len();
    let nc: usize = command.cmds.len();
    let mut ii: usize = 0;
    while ii < np
        invariant
            tlen == text@.len(),
            np == command.prefixes.len(),
            nc == command.cmds.len(),
            0 <= ii <= np,
            forall|i2: int, j2: int| 0 <= i2 < ii ==> !#[trigger] command.accepts_pair(
                i2,
                j2,
                text@,
            ),
        decreases np - ii,
    {
        let p: &String = &command.prefixes[ii];
        if starts_with_from(text, p.as_str(), 0) {
            let plen: usize = p.as_str().unicode_len();
            let mut jj: usize = 0;
            while jj < nc
                invariant
                    tlen == text@.len(),
                    np == command.prefixes.len(),
                    nc == command.cmds.len(),
                    0 <= ii < np,
                    0 <= jj <= nc,
                    p == &command.prefixes[ii as int],
                    plen == p@.len(),
                    spec_starts_with_at(text@, p@, 0),
                    forall|i2: int, j2: int| 0 <= i2 < ii ==> !#[trigger] command.accepts_pair(
                        i2,
                        j2,
                        text@,
                    ),
                    forall|j2: int| 0 <= j2 < jj ==> !#[trigger] command.accepts_pair(
                        ii as int,
                        j2,
                        text@,
                    ),
                decreases nc - jj,
            {
                let a: &String = &command.cmds[jj];
                if starts_with_from(text, a.as_str(), plen) {
                    let alen: usize = a.as_str().unicode_len();
                    let base: usize = plen + alen;
                    let ghost pv = p@;
                    let ghost av = a@;
                    let mut have_hit: bool = false;
                    let mut end: usize = base;
                    match &command.identity {
                        Some(id) => {
                            let idlen: usize = id.as_str().unicode_len();
                            if base < tlen && idlen <= tlen - base - 1 && text.get_char(base) == '@'
                                && starts_with_from(text, id.as_str(), base + 1) && ws_or_end_at(
                                text,
                                base + 1 + idlen,
                            ) {
                                proof {
                                    let suf = seq!['@'] + id@;
                                    assert(text@.subrange(
                                        base as int,
                                        base as int + 1 + id@.len() as int,
                                    ) =~= suf);
                                    assert(command.suffix_hit(base as int, text@));
                                }
                                have_hit = true;
                                end = base + 1 + idlen;
                            } else {
                                proof {
                                    if command.suffix_hit(base as int, text@) {
                                        let suf = seq!['@'] + id@;
                                        assert(spec_starts_with_at(text@, suf, base as int));
                                        assert(text@.subrange(
                                            base as int,
                                            base as int + suf.len() as int,
                                        ) == suf);
                                        assert(text@[base as int] == text@.subrange(
                                            base as int,
                                            base as int + suf.len() as int,
                                        )[0]);
                                        assert forall|k: int| 0 <= k < id@.len() implies text@[base
                                            as int + 1 + k] == id@[k] by {
                                            assert(text@.subrange(
                                                base as int,
                                                base as int + suf.len() as int,
                                            )[1 + k] == suf[1 + k]);
                                        }
                                        assert(text@.subrange(
                                            base as int + 1,
                                            base as int + 1 + id@.len() as int,
                                        ) =~= id@);
                                    }
                                }
                                if ws_or_end_at(text, base) {
                                    have_hit = true;
                                    end = base;
                                }
                            }
                        },
                        None => {
                            if ws_or_end_at(text, base) {
                                have_hit = true;
                                end = base;
                            }
                        },
                    }
                    if have_hit {
                        proof {
                            assert(command.hit_end(pv, av, text@) == end as int);
                            assert(command.hit(pv, av, text@));
                            assert(command.accepts_pair(ii as int, jj as int, text@));
                        }
                        let mut k: usize = end;
                        while k < tlen && is_whitespace_char(text.get_char(k))
                            invariant
                                tlen == text@.len(),
                                end <= k <= tlen,
                                forall|m: int| end <= m < k ==> is_ws(#[trigger] text@[m]),
                            decreases tlen - k,
                        {
                            k += 1;
                        }
                        proof {
                            lemma_skip_ws_eq(text@, end as int, k as int);
                        }
                        let rest: &str = text.substring_char(k, tlen);
                        let input: Option<String> = if k == tlen {
                            None
                        } else {
                            Some(String::from_str(rest))
                        };
                        let args: Vec<String> = split_ws(rest);
                        let ci = CommandInput {
                            prefix: p.clone(),
                            cmd: a.clone(),
                            input,
                            args,
                            meta: command.clone(),
                        };
                        proof {
                            let restv = command.rest_of(pv, av, text@);
                            assert(restv =~= rest@);
                            assert(restv.len() == 0 <==> k == tlen);
                            assert(is_match_result(command, text@, &ci, ii as int, jj as int));
                        }
                        return Some(ci);
                    }
                    proof {
                        assert(!command.hit(pv, av, text@));
                        assert(!command.accepts_pair(ii as int, jj as int, text@));
                    }
                } else {
                    proof {
                        assert(!command.accepts_pair(ii as int, jj as int, text@));
                    }
                }
                jj += 1;
            }
        } else {
            proof {
                assert forall|j2: int| true implies !command.accepts_pair(ii as int, j2, text@) by {
                    assert(!spec_starts_with_at(text@, command.prefixes.deep_view()[ii as int], 0));
                }
            }
        }
        ii += 1;
    }
    proof {
        assert(!command.accepts(text@));
    }
    None
}

} // verus!
