//! The small pattern language the loader recognizes file formats and
//! exporter comments with: literal bytes, `.`, classes `[a-z\-]`, groups
//! `( .. | .. )`, the quantifiers `*`, `+` and `?`, and the escapes `\s`
//! (whitespace), `\S` (anything else), `\d` (a digit), `\F` (a decimal
//! number) and `\c` / `\C` (case-insensitive / case-sensitive from here on).
//!
//! Matching is greedy and never backtracks into a quantifier: a failing
//! item moves on to the next alternative of its group (restarting the text
//! where the group started) or fails the group. Reads past the end of the
//! text or pattern see a zero byte; a repetition that consumes nothing ends
//! the repetition, and at the end of the text `\S` and classes match
//! nothing.
use vstd::prelude::*;
use crate::ascii::{spec_is_space, is_space};

verus! {

/// Byte `i` of `p`, zero outside it.
pub open spec fn rd(p: Seq<u8>, i: int) -> u8 {
    if 0 <= i < p.len() {
        p[i]
    } else {
        0u8
    }
}

/// `x` kept within `lo ..= hi`.
pub open spec fn bound(x: int, lo: int, hi: int) -> int {
    if x < lo {
        lo
    } else if x > hi {
        hi
    } else {
        x
    }
}

/// The pattern `\d` stands for: `[0-9]`.
pub open spec fn digit_pattern() -> Seq<u8> {
    seq![0x5bu8, 0x30u8, 0x2du8, 0x39u8, 0x5du8]
}

/// The pattern `\F` stands for: `[\-+]?[0-9]+(\.[0-9]+)?([eE][\-+]?[0-9]+)?`.
pub open spec fn float_pattern() -> Seq<u8> {
    seq![
        0x5bu8, 0x5cu8, 0x2du8, 0x2bu8, 0x5du8, 0x3fu8, 0x5bu8, 0x30u8, 0x2du8, 0x39u8, 0x5du8, 0x2bu8,
        0x28u8, 0x5cu8, 0x2eu8, 0x5bu8, 0x30u8, 0x2du8, 0x39u8, 0x5du8, 0x2bu8, 0x29u8, 0x3fu8, 0x28u8,
        0x5bu8, 0x65u8, 0x45u8, 0x5du8, 0x5bu8, 0x5cu8, 0x2du8, 0x2bu8, 0x5du8, 0x3fu8, 0x5bu8, 0x30u8,
        0x2du8, 0x39u8, 0x5du8, 0x2bu8, 0x29u8, 0x3fu8,
    ]
}

/// Skipping a class body (from just inside its `[`, with `c` the byte
/// before `f`): the position just past its `]`, or past the pattern's end.
pub open spec fn skip_class(p: Seq<u8>, f: int, c: u8) -> int
    decreases p.len() + 2 - f,
{
    if c == 0x5du8 || f < 0 || f > p.len() {
        f
    } else {
        let c1 = rd(p, f);
        if c1 == 0x5cu8 {
            skip_class(p, f + 2, rd(p, f + 1))
        } else {
            skip_class(p, f + 1, c1)
        }
    }
}

/// Skipping the rest of a group from `f`: the position of the `)` closing
/// it or of the pattern's end, or with `alt` of the next `|` of this
/// group, whichever comes first; nested groups and classes are skipped
/// whole, escaped bytes are passed over, and the byte after a class is
/// passed over too.
pub open spec fn spec_skip(p: Seq<u8>, f: int, alt: bool) -> int
    decreases p.len() + 3 - f,
{
    if f < 0 || f >= p.len() {
        f
    } else {
        let c = p[f];
        let f1 = f + 1;
        if c == 0x28u8 {
            let inner = spec_skip(p, f1, false);
            spec_skip(p, bound(inner + 1, f1, p.len() + 1int), alt)
        } else if c == 0x5cu8 {
            spec_skip(p, f1 + 1, alt)
        } else if c == 0x5bu8 {
            let e = skip_class(p, f1, rd(p, f1));
            spec_skip(p, bound(e + 1, f1, p.len() + 1int), alt)
        } else if c == 0x7cu8 {
            if alt {
                f
            } else {
                spec_skip(p, f1, alt)
            }
        } else if c == 0x29u8 || c == 0u8 {
            f
        } else {
            spec_skip(p, f1, alt)
        }
    }
}

/// Matching a class body against the byte `r`: whether a member matched
/// (`\x` escapes, ranges `a-b` compared as signed bytes, single bytes) and
/// the position just past the `]`.
pub open spec fn class_match(p: Seq<u8>, f: int, r: u8, hit: bool) -> (bool, int)
    decreases p.len() + 3 - f,
{
    if f < 0 || f > p.len() {
        (hit, f)
    } else {
        let c = rd(p, f);
        if c == 0x5du8 {
            (hit, f + 1)
        } else if c == 0x5cu8 {
            class_match(p, f + 2, r, hit || r == rd(p, f + 1))
        } else if rd(p, f + 1) == 0x2du8 {
            class_match(p, f + 3, r, hit || ((c as i8) <= (r as i8) && (r as i8) <= (rd(p, f + 2) as i8)))
        } else {
            class_match(p, f + 1, r, hit || r == c)
        }
    }
}

/// Where a match of the current group stands: the text position `s`, the
/// pattern position `f`, where the current item `fmt_begin` and its
/// alternative `alt_f` begin, how often the item has repeated, whether
/// letters match case-insensitively, and where the group's text began.
pub struct MatchState {
    pub s: int,
    pub f: int,
    pub fmt_begin: int,
    pub count: int,
    pub ci: bool,
    pub alt_s: int,
    pub alt_f: int,
}

/// What one item matched: whether it did, the text and pattern positions
/// after it, and the case mode after it.
pub struct Atom {
    pub ok: bool,
    pub s: int,
    pub f: int,
    pub ci: bool,
}

/// The start of matching a group (or pattern) at pattern position `f` and
/// text position `s`.
pub open spec fn start_state(s: int, f: int) -> MatchState {
    MatchState { s, f, fmt_begin: f, count: 0, ci: false, alt_s: s, alt_f: f }
}

/// Matching the rest of a group of pattern `p` against text `t` from state
/// `st`: whether it matched, and the text and pattern positions where it
/// ended (past the group's `)` or at the pattern's end). `budget` bounds
/// how deeply `\d` and `\F` nest.
pub open spec fn spec_match_loop(t: Seq<u8>, p: Seq<u8>, st: MatchState, budget: nat) -> (bool, int, int)
    decreases budget, p.len() + 3 - st.alt_f, t.len() + 1 - st.s, p.len() + 3 - st.f,
{
    if st.f < st.alt_f || st.alt_f < 0 || st.s < 0 || st.s > t.len() || st.f > p.len() + 2 || st.fmt_begin
        < st.alt_f || st.alt_s < 0 || st.alt_s > t.len() {
        (false, st.s, st.f)
    } else {
        let s = st.s;
        let c = rd(p, st.f);
        let f1 = st.f + 1;
        let r0 = rd(t, s);
        let r = if st.ci && 0x41u8 <= r0 <= 0x5au8 {
            (r0 + 32) as u8
        } else {
            r0
        };
        if c == 0u8 {
            (true, s, st.f)
        } else if c == 0x29u8 {
            (true, s, f1)
        } else {
            let atom = if c == 0x5cu8 {
                let c2 = rd(p, f1);
                let f2 = f1 + 1;
                if c2 == 0x64u8 || c2 == 0x46u8 {
                    if budget == 0 {
                        Atom { ok: false, s, f: f2, ci: st.ci }
                    } else {
                        let m = if c2 == 0x64u8 {
                            digit_pattern()
                        } else {
                            float_pattern()
                        };
                        let sub = spec_match_loop(t, m, start_state(s, 0), (budget - 1) as nat);
                        Atom { ok: sub.0, s: if sub.0 { bound(sub.1, s, t.len() as int) } else { s }, f: f2, ci: st.ci }
                    }
                } else if c2 == 0x73u8 {
                    let ok = spec_is_space(r);
                    Atom { ok, s: if ok { s + 1 } else { s }, f: f2, ci: st.ci }
                } else if c2 == 0x53u8 {
                    let ok = r != 0u8 && !spec_is_space(r);
                    Atom { ok, s: if ok { s + 1 } else { s }, f: f2, ci: st.ci }
                } else if c2 == 0x63u8 || c2 == 0x43u8 {
                    Atom { ok: true, s, f: f2, ci: c2 == 0x63u8 }
                } else {
                    let ok = c2 != 0u8 && r == c2;
                    Atom { ok, s: if ok { s + 1 } else { s }, f: f2, ci: st.ci }
                }
            } else if c == 0x5bu8 {
                let cm = class_match(p, f1, r, false);
                let ok = cm.0 && r != 0u8;
                Atom { ok, s: if ok { s + 1 } else { s }, f: bound(cm.1, f1, p.len() + 2int), ci: st.ci }
            } else if c == 0x28u8 {
                let sub = spec_match_loop(t, p, start_state(s, f1), budget);
                Atom {
                    ok: sub.0,
                    s: if sub.0 { bound(sub.1, s, t.len() as int) } else { s },
                    f: bound(sub.2, f1, p.len() + 2int),
                    ci: st.ci,
                }
            } else if c == 0x7cu8 {
                Atom { ok: true, s, f: bound(spec_skip(p, f1, false), f1, p.len() + 2int), ci: st.ci }
            } else if c == 0x2eu8 {
                let ok = r != 0u8;
                Atom { ok, s: if ok { s + 1 } else { s }, f: f1, ci: st.ci }
            } else {
                let ok = c == r;
                Atom { ok, s: if ok { s + 1 } else { s }, f: f1, ci: st.ci }
            };
            let q = rd(p, atom.f);
            let repeat = q == 0x2au8 || q == 0x2bu8;
            if repeat && atom.ok && atom.s > s {
                spec_match_loop(
                    t,
                    p,
                    MatchState {
                        s: atom.s,
                        f: st.fmt_begin,
                        fmt_begin: st.fmt_begin,
                        count: st.count + 1,
                        ci: atom.ci,
                        alt_s: st.alt_s,
                        alt_f: st.alt_f,
                    },
                    budget,
                )
            } else {
                let f3 = if repeat || q == 0x3fu8 {
                    atom.f + 1
                } else {
                    atom.f
                };
                let did_fail = if q == 0x2au8 || q == 0x3fu8 {
                    false
                } else if q == 0x2bu8 {
                    !atom.ok && st.count == 0
                } else {
                    !atom.ok
                };
                if did_fail {
                    let g = spec_skip(p, f3, true);
                    if rd(p, g) == 0x7cu8 {
                        let nf = bound(g + 1, st.f + 1, p.len() + 2int);
                        spec_match_loop(
                            t,
                            p,
                            MatchState {
                                s: st.alt_s,
                                f: nf,
                                fmt_begin: nf,
                                count: 0,
                                ci: atom.ci,
                                alt_s: st.alt_s,
                                alt_f: nf,
                            },
                            budget,
                        )
                    } else {
                        (false, s, spec_skip(p, g, false) + 1)
                    }
                } else {
                    let s2 = if atom.ok {
                        atom.s
                    } else {
                        s
                    };
                    let nf = bound(f3, st.f + 1, p.len() + 2int);
                    spec_match_loop(
                        t,
                        p,
                        MatchState { s: s2, f: nf, fmt_begin: nf, count: 0, ci: atom.ci, alt_s: st.alt_s, alt_f: st.alt_f },
                        budget,
                    )
                }
            }
        }
    }
}

/// Whether the whole text `t` matches the pattern `p`.
pub open spec fn spec_match(t: Seq<u8>, p: Seq<u8>) -> bool {
    let r = spec_match_loop(t, p, start_state(0, 0), 1);
    r.0 && r.1 == t.len()
}


/// Byte `i` of `p`, zero outside it.
fn rd_exec(p: &[u8], i: usize) -> (r: u8)
    ensures
        r == rd(p@, i as int),
{
    if i < p.len() {
        p[i]
    } else {
        0
    }
}

/// `x` kept within `lo ..= hi`.
fn bound_exec(x: usize, lo: usize, hi: usize) -> (r: usize)
    ensures
        r == bound(x as int, lo as int, hi as int),
{
    if x < lo {
        lo
    } else if x > hi {
        hi
    } else {
        x
    }
}

/// The pattern a macro escape (`d` or `F`) stands for.
fn macro_pattern(c: u8) -> (r: Vec<u8>)
    ensures
        r@ == if c == 0x64u8 {
            digit_pattern()
        } else {
            float_pattern()
        },
{
    if c == 0x64u8 {
        let r = vec![0x5bu8, 0x30u8, 0x2du8, 0x39u8, 0x5du8];
        assert(r@ =~= digit_pattern());
        r
    } else {
        let r = vec![
            0x5bu8, 0x5cu8, 0x2du8, 0x2bu8, 0x5du8, 0x3fu8, 0x5bu8, 0x30u8, 0x2du8, 0x39u8, 0x5du8, 0x2bu8,
            0x28u8, 0x5cu8, 0x2eu8, 0x5bu8, 0x30u8, 0x2du8, 0x39u8, 0x5du8, 0x2bu8, 0x29u8, 0x3fu8, 0x28u8,
            0x5bu8, 0x65u8, 0x45u8, 0x5du8, 0x5bu8, 0x5cu8, 0x2du8, 0x2bu8, 0x5du8, 0x3fu8, 0x5bu8, 0x30u8,
            0x2du8, 0x39u8, 0x5du8, 0x2bu8, 0x29u8, 0x3fu8,
        ];
        assert(r@ =~= float_pattern());
        r
    }
}

/// Skips a class body (see `skip_class`).
fn skip_class_exec(p: &[u8], f0: usize, c0: u8) -> (r: usize)
    requires
        p.len() <= usize::MAX - 8,
        f0 <= p.len() + 2,
    ensures
        r == skip_class(p@, f0 as int, c0),
        r <= p.len() + 2,
{
    let mut f = f0;
    let mut c = c0;
    while !(c == 0x5du8 || f > p.len())
        invariant
            p.len() <= usize::MAX - 8,
            f <= p.len() + 2,
            skip_class(p@, f as int, c) == skip_class(p@, f0 as int, c0),
        decreases p.len() + 2 - f,
    {
        let c1 = rd_exec(p, f);
        if c1 == 0x5cu8 {
            c = rd_exec(p, f + 1);
            f = f + 2;
        } else {
            c = c1;
            f = f + 1;
        }
    }
    f
}


/// A skip ends inside the pattern or where it started.
proof fn lemma_skip_bounds(p: Seq<u8>, f: int, alt: bool)
    requires
        0 <= f <= p.len() + 2,
    ensures
        f <= spec_skip(p, f, alt) <= if f > p.len() + 1 { f } else { p.len() + 1int },
    decreases p.len() + 3 - f,
{
    if 0 <= f < p.len() {
        let c = p[f];
        let f1 = f + 1;
        if c == 0x28u8 {
            lemma_skip_bounds(p, f1, false);
            let inner = spec_skip(p, f1, false);
            lemma_skip_bounds(p, bound(inner + 1, f1, p.len() + 1int), alt);
        } else if c == 0x5cu8 {
            lemma_skip_bounds(p, f1 + 1, alt);
        } else if c == 0x5bu8 {
            let e = skip_class(p, f1, rd(p, f1));
            lemma_skip_bounds(p, bound(e + 1, f1, p.len() + 1int), alt);
        } else if c == 0x7cu8 {
            if !alt {
                lemma_skip_bounds(p, f1, alt);
            }
        } else if c == 0x29u8 || c == 0u8 {
        } else {
            lemma_skip_bounds(p, f1, alt);
        }
    }
}

/// Skips the rest of a group (see `spec_skip`).
pub fn match_skip(p: &[u8], f0: usize, alt: bool) -> (r: usize)
    requires
        p.len() <= usize::MAX - 8,
        f0 <= p.len() + 2,
    ensures
        r == spec_skip(p@, f0 as int, alt),
        f0 <= r <= p.len() + 2,
    decreases p.len() + 3 - f0,
{
    proof {
        lemma_skip_bounds(p@, f0 as int, alt);
    }
    let mut f = f0;
    loop
        invariant
            p.len() <= usize::MAX - 8,
            f0 <= f <= p.len() + 2,
            spec_skip(p@, f as int, alt) == spec_skip(p@, f0 as int, alt),
        decreases p.len() + 3 - f,
    {
        if f >= p.len() {
            return f;
        }
        let c = p[f];
        let f1 = f + 1;
        if c == 0x28u8 {
            let inner = match_skip(p, f1, false);
            f = bound_exec(inner + 1, f1, p.len() + 1);
        } else if c == 0x5cu8 {
            f = f1 + 1;
        } else if c == 0x5bu8 {
            let e = skip_class_exec(p, f1, rd_exec(p, f1));
            f = bound_exec(e + 1, f1, p.len() + 1);
        } else if c == 0x7cu8 {
            if alt {
                return f;
            }
            f = f1;
        } else if c == 0x29u8 || c == 0u8 {
            return f;
        } else {
            f = f1;
        }
    }
}

/// Matches a class body against a byte (see `class_match`).
fn class_match_exec(p: &[u8], f0: usize, r: u8) -> (res: (bool, usize))
    requires
        p.len() <= usize::MAX - 8,
        f0 <= p.len() + 2,
    ensures
        (res.0, res.1 as int) == class_match(p@, f0 as int, r, false),
{
    let mut f = f0;
    let mut hit = false;
    loop
        invariant
            p.len() <= usize::MAX - 8,
            f <= p.len() + 3,
            class_match(p@, f as int, r, hit) == class_match(p@, f0 as int, r, false),
        decreases p.len() + 3 - f,
    {
        if f > p.len() {
            return (hit, f);
        }
        let c = rd_exec(p, f);
        if c == 0x5du8 {
            return (hit, f + 1);
        } else if c == 0x5cu8 {
            hit = hit || r == rd_exec(p, f + 1);
            f = f + 2;
        } else if rd_exec(p, f + 1) == 0x2du8 {
            let hi = rd_exec(p, f + 2);
            hit = hit || ((c as i8) <= (r as i8) && (r as i8) <= (hi as i8));
            f = f + 3;
        } else {
            hit = hit || r == c;
            f = f + 1;
        }
    }
}


/// The state `spec_match_loop` continues from, in machine words.
pub open spec fn state_of(
    s: usize,
    f: usize,
    fmt_begin: usize,
    count: usize,
    ci: bool,
    alt_s: usize,
    alt_f: usize,
) -> MatchState {
    MatchState {
        s: s as int,
        f: f as int,
        fmt_begin: fmt_begin as int,
        count: count as int,
        ci,
        alt_s: alt_s as int,
        alt_f: alt_f as int,
    }
}

/// Matches the rest of a group of `p` against `t` from text position `s0`
/// and pattern position `f0` (see `spec_match_loop`).
pub fn match_group(t: &[u8], p: &[u8], s0: usize, f0: usize, budget: u8) -> (r: (bool, usize, usize))
    requires
        t.len() <= usize::MAX - 8,
        p.len() <= usize::MAX - 8,
        s0 <= t.len(),
        f0 <= p.len() + 2,
    ensures
        (r.0, r.1 as int, r.2 as int) == spec_match_loop(t@, p@, start_state(s0 as int, f0 as int), budget as nat),
    decreases budget, p.len() + 3 - f0,
{
    let mut s = s0;
    let mut f = f0;
    let mut fmt_begin = f0;
    let mut count: usize = 0;
    let mut ci = false;
    let alt_s = s0;
    let mut alt_f = f0;
    loop
        invariant
            t.len() <= usize::MAX - 8,
            p.len() <= usize::MAX - 8,
            f0 <= alt_f <= fmt_begin <= f <= p.len() + 2,
            s <= t.len(),
            alt_s == s0,
            count <= s,
            spec_match_loop(t@, p@, state_of(s, f, fmt_begin, count, ci, alt_s, alt_f), budget as nat)
                == spec_match_loop(t@, p@, start_state(s0 as int, f0 as int), budget as nat),
        decreases p.len() + 3 - alt_f, t.len() + 1 - s, p.len() + 3 - f,
    {
        let ghost st = state_of(s, f, fmt_begin, count, ci, alt_s, alt_f);
        let c = rd_exec(p, f);
        let f1 = f + 1;
        let r0 = rd_exec(t, s);
        let r: u8 = if ci && 0x41u8 <= r0 && r0 <= 0x5au8 {
            r0 + 32
        } else {
            r0
        };
        if c == 0u8 {
            return (true, s, f);
        }
        if c == 0x29u8 {
            return (true, s, f1);
        }
        assert(f < p.len());
        let mut a_ok: bool;
        let mut a_s: usize;
        let a_f: usize;
        let mut a_ci: bool = ci;
        if c == 0x5cu8 {
            let c2 = rd_exec(p, f1);
            let f2 = f1 + 1;
            a_f = f2;
            if c2 == 0x64u8 || c2 == 0x46u8 {
                if budget == 0 {
                    a_ok = false;
                    a_s = s;
                } else {
                    let m = macro_pattern(c2);
                    let sub = match_group(t, m.as_slice(), s, 0, budget - 1);
                    a_ok = sub.0;
                    a_s = if sub.0 {
                        bound_exec(sub.1, s, t.len())
                    } else {
                        s
                    };
                }
            } else if c2 == 0x73u8 {
                a_ok = is_space(r);
                a_s = if a_ok {
                    s + 1
                } else {
                    s
                };
            } else if c2 == 0x53u8 {
                a_ok = r != 0u8 && !is_space(r);
                a_s = if a_ok {
                    s + 1
                } else {
                    s
                };
            } else if c2 == 0x63u8 || c2 == 0x43u8 {
                a_ok = true;
                a_s = s;
                a_ci = c2 == 0x63u8;
            } else {
                a_ok = c2 != 0u8 && r == c2;
                a_s = if a_ok {
                    s + 1
                } else {
                    s
                };
            }
        } else if c == 0x5bu8 {
            let cm = class_match_exec(p, f1, r);
            a_ok = cm.0 && r != 0u8;
            a_s = if a_ok {
                s + 1
            } else {
                s
            };
            a_f = bound_exec(cm.1, f1, p.len() + 2);
        } else if c == 0x28u8 {
            let sub = match_group(t, p, s, f1, budget);
            a_ok = sub.0;
            a_s = if sub.0 {
                bound_exec(sub.1, s, t.len())
            } else {
                s
            };
            a_f = bound_exec(sub.2, f1, p.len() + 2);
        } else if c == 0x7cu8 {
            a_ok = true;
            a_s = s;
            let sk = match_skip(p, f1, false);
            a_f = bound_exec(sk, f1, p.len() + 2);
        } else if c == 0x2eu8 {
            a_ok = r != 0u8;
            a_s = if a_ok {
                s + 1
            } else {
                s
            };
            a_f = f1;
        } else {
            a_ok = c == r;
            a_s = if a_ok {
                s + 1
            } else {
                s
            };
            a_f = f1;
        }
        let q = rd_exec(p, a_f);
        let repeat = q == 0x2au8 || q == 0x2bu8;
        if repeat && a_ok && a_s > s {
            s = a_s;
            f = fmt_begin;
            count = count + 1;
            ci = a_ci;
        } else {
            let f3 = if repeat || q == 0x3fu8 {
                a_f + 1
            } else {
                a_f
            };
            let did_fail = if q == 0x2au8 || q == 0x3fu8 {
                false
            } else if q == 0x2bu8 {
                !a_ok && count == 0
            } else {
                !a_ok
            };
            if did_fail {
                let g = match_skip(p, f3, true);
                if rd_exec(p, g) == 0x7cu8 {
                    let nf = bound_exec(g + 1, f + 1, p.len() + 2);
                    s = alt_s;
                    f = nf;
                    fmt_begin = nf;
                    count = 0;
                    ci = a_ci;
                    alt_f = nf;
                } else {
                    let g2 = match_skip(p, g, false);
                    return (false, s, g2 + 1);
                }
            } else {
                let s2 = if a_ok {
                    a_s
                } else {
                    s
                };
                let nf = bound_exec(f3, f + 1, p.len() + 2);
                s = s2;
                f = nf;
                fmt_begin = nf;
                count = 0;
                ci = a_ci;
            }
        }
    }
}

/// Whether all of `t` matches the pattern `p` (see `spec_match`).
pub fn pattern_match(t: &[u8], p: &[u8]) -> (r: bool)
    requires
        t.len() <= usize::MAX - 8,
        p.len() <= usize::MAX - 8,
    ensures
        r == spec_match(t@, p@),
{
    let m = match_group(t, p, 0, 0, 1);
    m.0 && m.1 == t.len()
}

} // verus!
