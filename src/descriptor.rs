//! Method descriptors: splitting `(params)ret` into type tokens, and counting argument slots.
use vstd::prelude::*;
use vstd::string::StrSliceExecFns;

verus! {

/// The tokenizer's state: inside a class name, after `[`, the token being built, and the
/// tokens emitted so far.
pub type DescState = (bool, bool, Seq<char>, Seq<Seq<char>>);

pub open spec fn is_base_type(ch: char) -> bool {
    ch == 'Z' || ch == 'C' || ch == 'S' || ch == 'I' || ch == 'J' || ch == 'F' || ch == 'D' || ch == 'V'
}

/// One character of the tokenizer; `None` for a character it rejects.
pub open spec fn desc_step(st: DescState, ch: char) -> Option<DescState> {
    let (is_class, is_array, cur, out) = st;
    if ch == '[' {
        Some((is_class, true, cur.push(ch), out))
    } else if ch == 'L' {
        if !is_class {
            Some((true, is_array, cur, out))
        } else {
            Some((is_class, is_array, cur.push(ch), out))
        }
    } else if ch == ';' {
        Some((false, false, Seq::empty(), out.push(cur)))
    } else if is_base_type(ch) {
        if !is_class && !is_array {
            Some((is_class, is_array, cur, out.push(seq![ch])))
        } else if !is_class && is_array {
            Some((false, false, Seq::empty(), out.push(cur.push(ch))))
        } else {
            Some((is_class, is_array, cur.push(ch), out))
        }
    } else if is_class {
        Some((is_class, is_array, cur.push(ch), out))
    } else {
        None
    }
}

/// The state after the first `n` characters of `s`, starting from a fresh state that has
/// already emitted `out`.
pub open spec fn desc_prefix(s: Seq<char>, n: int, out: Seq<Seq<char>>) -> Option<DescState>
    decreases n,
{
    if n <= 0 {
        Some((false, false, Seq::empty(), out))
    } else {
        match desc_prefix(s, n - 1, out) {
            Some(st) => desc_step(st, s[n - 1]),
            None => None,
        }
    }
}

/// The tokens of `s` appended to `out`; `None` if the tokenizer rejects a character.
pub open spec fn desc_tokens(s: Seq<char>, out: Seq<Seq<char>>) -> Option<Seq<Seq<char>>> {
    match desc_prefix(s, s.len() as int, out) {
        Some(st) => Some(st.3),
        None => None,
    }
}

/// Position of the first `c` in `s` at or after `from`, or `s.len()`.
pub open spec fn find_char(s: Seq<char>, c: char, from: int) -> int
    decreases s.len() - from,
{
    if from >= s.len() {
        s.len() as int
    } else if s[from] == c {
        from
    } else {
        find_char(s, c, from + 1)
    }
}

/// The parameter part of a method descriptor: after its first character, up to the first `)`.
pub open spec fn params_part(s: Seq<char>) -> Seq<char> {
    s.subrange(1, find_char(s, ')', 0))
}

/// The return part: between the first `)` and the next one (or the end).
pub open spec fn return_part(s: Seq<char>) -> Seq<char> {
    let k = find_char(s, ')', 0);
    s.subrange(k + 1, find_char(s, ')', k + 1))
}

/// Whether `s` has the shape `x...)...`, which the splitting needs.
pub open spec fn has_method_shape(s: Seq<char>) -> bool {
    1 <= find_char(s, ')', 0) < s.len()
}

/// The parameter tokens followed by the return tokens.
pub open spec fn method_tokens(s: Seq<char>) -> Option<Seq<Seq<char>>> {
    if !has_method_shape(s) {
        None
    } else {
        match desc_tokens(params_part(s), Seq::empty()) {
            Some(out) => desc_tokens(return_part(s), out),
            None => None,
        }
    }
}

/// The tokens of the parameter part alone.
pub open spec fn param_tokens(s: Seq<char>) -> Option<Seq<Seq<char>>> {
    if !has_method_shape(s) {
        None
    } else {
        desc_tokens(params_part(s), Seq::empty())
    }
}

/// The local slots a token takes: two for `J` and `D`, one otherwise.
pub open spec fn token_slots(t: Seq<char>) -> nat {
    if t == seq!['J'] || t == seq!['D'] {
        2
    } else {
        1
    }
}

/// The slots that a sequence of parameter tokens takes.
pub open spec fn slots_of(ts: Seq<Seq<char>>) -> nat
    decreases ts.len(),
{
    if ts.len() == 0 {
        0
    } else {
        slots_of(ts.drop_last()) + token_slots(ts.last())
    }
}

pub open spec fn views(v: Seq<Vec<char>>) -> Seq<Seq<char>> {
    v.map_values(|t: Vec<char>| t@)
}

/// Position of the first `c` in `s` at or after `from`, or `s.len()`.
fn find_char_exec(s: &[char], c: char, from: usize) -> (r: usize)
    requires
        from <= s@.len(),
    ensures
        r == find_char(s@, c, from as int),
        from <= r <= s@.len(),
{
    let mut i = from;
    while i < s.len()
        invariant
            from <= i <= s@.len(),
            find_char(s@, c, from as int) == find_char(s@, c, i as int),
        decreases s@.len() - i,
    {
        if s[i] == c {
            return i;
        }
        i += 1;
    }
    i
}

/// Tokenize `s[from..to]`, appending to `output`; `false` (with `output` in an unspecified
/// state) if a character is rejected.
pub fn parse_descriptor(s: &[char], from: usize, to: usize, output: &mut Vec<Vec<char>>) -> (r: bool)
    requires
        from <= to <= s@.len(),
    ensures
        r == desc_tokens(s@.subrange(from as int, to as int), views(old(output)@)) is Some,
        r ==> desc_tokens(s@.subrange(from as int, to as int), views(old(output)@)) == Some(
            views(final(output)@),
        ),
{
    let ghost part = s@.subrange(from as int, to as int);
    let ghost out0 = views(old(output)@);
    let mut is_class = false;
    let mut is_array = false;
    let mut cur: Vec<char> = Vec::new();
    let mut i = from;
    assert(part.len() == to - from);
    while i < to
        invariant
            from <= i <= to <= s@.len(),
            part == s@.subrange(from as int, to as int),
            out0 == views(old(output)@),
            desc_prefix(part, i - from, out0) == Some((is_class, is_array, cur@, views(output@))),
        decreases to - i,
    {
        let ch = s[i];
        assert(part[i - from] == ch);
        let ghost prev = views(output@);
        if ch == '[' {
            is_array = true;
            cur.push(ch);
        } else if ch == 'L' {
            if !is_class {
                is_class = true;
            } else {
                cur.push(ch);
            }
        } else if ch == ';' {
            let ghost c0 = cur@;
            is_class = false;
            is_array = false;
            output.push(cur);
            cur = Vec::new();
            assert(views(output@) =~= prev.push(c0));
        } else if ch == 'Z' || ch == 'C' || ch == 'S' || ch == 'I' || ch == 'J' || ch == 'F' || ch
            == 'D' || ch == 'V' {
            if !is_class && !is_array {
                let mut t: Vec<char> = Vec::new();
                t.push(ch);
                output.push(t);
                assert(views(output@) =~= prev.push(seq![ch]));
            } else if !is_class && is_array {
                is_array = false;
                cur.push(ch);
                let ghost c1 = cur@;
                output.push(cur);
                assert(views(output@) =~= prev.push(c1));
                cur = Vec::new();
            } else {
                cur.push(ch);
            }
        } else if is_class {
            cur.push(ch);
        } else {
            assert(desc_prefix(part, i + 1 - from, out0) is None);
            proof {
                lemma_prefix_none_stays(part, (i + 1 - from) as int, out0);
            }
            return false;
        }
        i += 1;
    }
    assert(part.len() == to - from);
    true
}

/// Each character emits at most one token.
proof fn lemma_prefix_out_len(s: Seq<char>, n: int, out: Seq<Seq<char>>)
    requires
        0 <= n <= s.len(),
        desc_prefix(s, n, out) is Some,
    ensures
        desc_prefix(s, n, out).unwrap().3.len() <= out.len() + n,
    decreases n,
{
    if n > 0 {
        lemma_prefix_out_len(s, n - 1, out);
    }
}

/// Once the tokenizer rejects a character, it rejects every longer prefix.
proof fn lemma_prefix_none_stays(s: Seq<char>, n: int, out: Seq<Seq<char>>)
    requires
        0 <= n <= s.len(),
        desc_prefix(s, n, out) is None,
    ensures
        desc_prefix(s, s.len() as int, out) is None,
    decreases s.len() - n,
{
    if n < s.len() {
        lemma_prefix_none_stays(s, n + 1, out);
    }
}

/// Split a method descriptor (as characters) into its parameter and return tokens.
pub fn parse_method_descriptor_chars(s: &[char]) -> (r: Option<Vec<Vec<char>>>)
    ensures
        match r {
            Some(v) => method_tokens(s@) == Some(views(v@)),
            None => method_tokens(s@) is None,
        },
{
    let k = find_char_exec(s, ')', 0);
    if k < 1 || k >= s.len() {
        return None;
    }
    let e = find_char_exec(s, ')', k + 1);
    let mut types: Vec<Vec<char>> = Vec::new();
    assert(views(types@) =~= Seq::<Seq<char>>::empty());
    if !parse_descriptor(s, 1, k, &mut types) {
        return None;
    }
    if !parse_descriptor(s, k + 1, e, &mut types) {
        return None;
    }
    Some(types)
}

/// The argument slots of a method descriptor's parameters: two for `J` and `D`, one
/// for every other parameter.
pub fn count_arg_slots(s: &[char]) -> (r: Option<usize>)
    requires
        s@.len() <= usize::MAX / 2,
    ensures
        match r {
            Some(n) => param_tokens(s@) is Some && n == slots_of(param_tokens(s@)->0) && n <= 2 * s@.len(),
            None => param_tokens(s@) is None,
        },
{
    let k = find_char_exec(s, ')', 0);
    if k < 1 || k >= s.len() {
        return None;
    }
    let mut types: Vec<Vec<char>> = Vec::new();
    assert(views(types@) =~= Seq::<Seq<char>>::empty());
    if !parse_descriptor(s, 1, k, &mut types) {
        return None;
    }
    let ghost ts = views(types@);
    proof {
        lemma_prefix_out_len(s@.subrange(1, k as int), k - 1, Seq::empty());
    }
    let mut n: usize = 0;
    let mut i: usize = 0;
    while i < types.len()
        invariant
            i <= types@.len(),
            ts == views(types@),
            n == slots_of(ts.subrange(0, i as int)),
            n <= 2 * i,
            types@.len() <= s@.len() <= usize::MAX / 2,
        decreases types@.len() - i,
    {
        let t = &types[i];
        let two = t.len() == 1 && (t[0] == 'J' || t[0] == 'D');
        assert(ts.subrange(0, i + 1).drop_last() =~= ts.subrange(0, i as int));
        assert(two == (ts[i as int] == seq!['J'] || ts[i as int] == seq!['D'])) by {
            if ts[i as int] == seq!['J'] || ts[i as int] == seq!['D'] {
                assert(ts[i as int].len() == 1);
                assert(ts[i as int][0] == t@[0]);
            }
            if two {
                assert(t@ =~= seq![t@[0]]);
            }
        }
        if two {
            n = n + 2;
        } else {
            n = n + 1;
        }
        i += 1;
    }
    assert(ts.subrange(0, types@.len() as int) =~= ts);
    Some(n)
}

/// Relies on `String`'s `FromIterator<&char>`: the string holds exactly the characters
/// iterated, in order.
#[verifier::external_body]
fn string_from_chars(v: &[char]) -> (r: String)
    ensures
        r@ == v@,
{
    v.iter().collect()
}

/// The characters of `s`.
fn chars_of_str(s: &str) -> (r: Vec<char>)
    ensures
        r@ == s@,
{
    let n = s.unicode_len();
    let mut v: Vec<char> = Vec::new();
    let mut i: usize = 0;
    while i < n
        invariant
            n == s@.len(),
            i <= n,
            v@ == s@.subrange(0, i as int),
        decreases n - i,
    {
        v.push(s.get_char(i));
        i += 1;
        assert(v@ =~= s@.subrange(0, i as int));
    }
    assert(s@.subrange(0, n as int) =~= s@);
    v
}

/// Parse a method descriptor `(params)ret` into its parameter tokens followed by its
/// return token: `"(I[C)Ljava/lang/String;"` gives `["I", "[C", "java/lang/String"]`.
pub fn parse_method_descriptor(descriptor: &str) -> (r: Vec<String>)
    requires
        method_tokens(descriptor@) is Some,
    ensures
        r@.map_values(|t: String| t@) == method_tokens(descriptor@)->0,
{
    let chars = chars_of_str(descriptor);
    let tokens = match parse_method_descriptor_chars(chars.as_slice()) {
        Some(t) => t,
        None => return Vec::new(),
    };
    let mut out: Vec<String> = Vec::new();
    let mut i: usize = 0;
    while i < tokens.len()
        invariant
            i <= tokens@.len(),
            out@.map_values(|t: String| t@) == views(tokens@).subrange(0, i as int),
        decreases tokens@.len() - i,
    {
        let ghost prev = out@.map_values(|t: String| t@);
        let t = string_from_chars(tokens[i].as_slice());
        assert(t@ == views(tokens@)[i as int]);
        out.push(t);
        assert(out@.map_values(|t: String| t@) =~= prev.push(t@));
        assert(views(tokens@).subrange(0, i + 1) =~= views(tokens@).subrange(0, i as int).push(t@));
        i += 1;
    }
    assert(views(tokens@).subrange(0, tokens@.len() as int) =~= views(tokens@));
    out
}

} // verus!
