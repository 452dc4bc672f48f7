//! Character-level text handling shared by the command interpreters: trimming,
//! prefix tests, splitting on single spaces, joining, ASCII lower-casing and
//! decimal rendering, each stated over `Seq<char>`.
use vstd::prelude::*;
use vstd::utf8::valid_utf8;
use vstd::utf8::decode_utf8;

verus! {

/// Unicode `White_Space` (the set that `char::is_whitespace` and `str::trim` use).
pub open spec fn is_ws(c: char) -> bool {
    let u = c as u32;
    ||| u == 0x20
    ||| (0x09 <= u && u <= 0x0d)
    ||| u == 0x85
    ||| u == 0xa0
    ||| u == 0x1680
    ||| (0x2000 <= u && u <= 0x200a)
    ||| u == 0x2028
    ||| u == 0x2029
    ||| u == 0x202f
    ||| u == 0x205f
    ||| u == 0x3000
}

/// `s` with leading white space removed.
pub open spec fn trim_start(s: Seq<char>) -> Seq<char>
    decreases s.len(),
{
    if s.len() > 0 && is_ws(s[0]) {
        trim_start(s.drop_first())
    } else {
        s
    }
}

/// `s` with trailing white space removed.
pub open spec fn trim_end(s: Seq<char>) -> Seq<char>
    decreases s.len(),
{
    if s.len() > 0 && is_ws(s.last()) {
        trim_end(s.drop_last())
    } else {
        s
    }
}

/// `str::trim`: white space removed at both ends.
pub open spec fn trim(s: Seq<char>) -> Seq<char> {
    trim_end(trim_start(s))
}

/// `str::starts_with` with a string pattern.
pub open spec fn starts_with(s: Seq<char>, p: Seq<char>) -> bool {
    p.len() <= s.len() && s.take(p.len() as int) == p
}

/// `str::split(' ')`: the pieces between single spaces, empty pieces included;
/// there is always at least one piece.
pub open spec fn split(s: Seq<char>) -> Seq<Seq<char>>
    decreases s.len(),
{
    if s.len() == 0 {
        seq![Seq::<char>::empty()]
    } else {
        let r = split(s.drop_last());
        if s.last() == ' ' {
            r.push(Seq::<char>::empty())
        } else {
            r.update(r.len() - 1, r.last().push(s.last()))
        }
    }
}

/// `join(" ")`: the pieces with one space between each two.
pub open spec fn join(parts: Seq<Seq<char>>) -> Seq<char>
    decreases parts.len(),
{
    if parts.len() == 0 {
        Seq::<char>::empty()
    } else if parts.len() == 1 {
        parts[0]
    } else {
        join(parts.drop_last()).push(' ') + parts.last()
    }
}

/// `char::to_ascii_lowercase`.
pub open spec fn ascii_lower(c: char) -> char {
    if 'A' <= c && c <= 'Z' {
        ((c as u32) + 32) as char
    } else {
        c
    }
}

/// `str::make_ascii_lowercase`.
pub open spec fn lower(s: Seq<char>) -> Seq<char> {
    s.map_values(|c: char| ascii_lower(c))
}

/// The decimal digits of `n`, most significant first, without leading zeros.
pub open spec fn decimal(n: nat) -> Seq<char>
    decreases n,
{
    if n < 10 {
        seq![digit_char(n)]
    } else {
        decimal(n / 10).push(digit_char(n % 10))
    }
}

pub open spec fn digit_char(d: nat) -> char {
    (('0' as u32) + d) as char
}

proof fn lemma_trim_start_first(s: Seq<char>)
    ensures
        trim_start(s).len() == 0 || !is_ws(trim_start(s)[0]),
    decreases s.len(),
{
    if s.len() > 0 && is_ws(s[0]) {
        lemma_trim_start_first(s.drop_first());
    }
}

proof fn lemma_trim_end_prefix(s: Seq<char>)
    ensures
        trim_end(s).len() <= s.len(),
        trim_end(s) == s.take(trim_end(s).len() as int),
        trim_end(s).len() == 0 || !is_ws(trim_end(s).last()),
    decreases s.len(),
{
    if s.len() > 0 && is_ws(s.last()) {
        lemma_trim_end_prefix(s.drop_last());
        let b = trim_end(s.drop_last());
        assert(s.drop_last().take(b.len() as int) =~= s.take(b.len() as int));
    } else {
        assert(s.take(s.len() as int) =~= s);
    }
}

/// Trimming twice trims no more than trimming once.
pub proof fn lemma_trim_idempotent(s: Seq<char>)
    ensures
        trim(trim(s)) == trim(s),
{
    let a = trim_start(s);
    let b = trim_end(a);
    lemma_trim_start_first(s);
    lemma_trim_end_prefix(a);
    if b.len() > 0 {
        assert(b[0] == a[0]);
    }
    assert(trim_start(b) == b);
    assert(trim_end(b) == b);
}

proof fn lemma_trim_start_skip(s: Seq<char>, i: int)
    requires
        0 <= i < s.len(),
        is_ws(s[i]),
    ensures
        trim_start(s.skip(i)) == trim_start(s.skip(i + 1)),
{
    assert(s.skip(i).drop_first() =~= s.skip(i + 1));
}

proof fn lemma_trim_end_take(s: Seq<char>, j: int)
    requires
        0 < j <= s.len(),
        is_ws(s[j - 1]),
    ensures
        trim_end(s.take(j)) == trim_end(s.take(j - 1)),
{
    assert(s.take(j).drop_last() =~= s.take(j - 1));
}

/// A text that begins and ends with a character other than white space is its
/// own trim.
pub proof fn lemma_trim_unchanged(s: Seq<char>)
    requires
        s.len() > 0,
        !is_ws(s[0]),
        !is_ws(s.last()),
    ensures
        trim(s) == s,
{
    assert(trim_start(s) == s);
    assert(trim_end(s) == s);
}

/// A text that differs from `p` in its first or second character neither is `p`
/// nor begins with it.
pub proof fn lemma_differs_early(s: Seq<char>, p: Seq<char>)
    ensures
        s.len() > 0 && p.len() > 0 && s[0] != p[0] ==> s != p && !starts_with(s, p),
        s.len() > 1 && p.len() > 1 && s[1] != p[1] ==> s != p && !starts_with(s, p),
{
    if starts_with(s, p) && p.len() > 1 {
        assert(s.take(p.len() as int)[0] == p[0]);
        assert(s.take(p.len() as int)[1] == p[1]);
    }
    if starts_with(s, p) && p.len() > 0 {
        assert(s.take(p.len() as int)[0] == p[0]);
    }
}

proof fn lemma_trim_end_keeps_first(s: Seq<char>)
    requires
        s.len() > 0,
        !is_ws(s[0]),
    ensures
        trim_end(s).len() > 0,
    decreases s.len(),
{
    if is_ws(s.last()) {
        assert(s.len() > 1);
        assert(s.drop_last()[0] == s[0]);
        lemma_trim_end_keeps_first(s.drop_last());
    }
}

/// A text that does not begin with white space begins with its trim, which is
/// not empty.
pub proof fn lemma_trim_prefix_of(s: Seq<char>)
    ensures
        trim(s).len() > 0 ==> s.len() > 0,
        s.len() > 0 && !is_ws(s[0]) ==> trim(s).len() > 0,
        s.len() > 0 && !is_ws(s[0]) ==> trim(s).len() <= s.len() && forall|i: int|
            0 <= i < trim(s).len() ==> s[i] == #[trigger] trim(s)[i],
{
    lemma_trim_end_prefix(trim_start(s));
    if s.len() > 0 && !is_ws(s[0]) {
        assert(trim_start(s) == s);
        lemma_trim_end_keeps_first(s);
        assert forall|i: int| 0 <= i < trim(s).len() implies s[i] == #[trigger] trim(s)[i] by {
            assert(trim(s) == s.take(trim(s).len() as int));
        }
    }
    if s.len() == 0 {
        assert(trim_start(s) == s);
    }
}

/// Splitting always yields at least one piece.
pub proof fn lemma_split_len(s: Seq<char>)
    ensures
        split(s).len() >= 1,
    decreases s.len(),
{
    if s.len() > 0 {
        lemma_split_len(s.drop_last());
    }
}

/// A text without a space is a single piece.
pub proof fn lemma_split_no_space(s: Seq<char>)
    requires
        forall|i: int| 0 <= i < s.len() ==> s[i] != ' ',
    ensures
        split(s) == seq![s],
    decreases s.len(),
{
    if s.len() > 0 {
        let d = s.drop_last();
        assert forall|i: int| 0 <= i < d.len() implies d[i] != ' ' by {
            assert(d[i] == s[i]);
        }
        lemma_split_no_space(d);
        assert(d.push(s.last()) =~= s);
        assert(split(s) =~= seq![s]);
    } else {
        assert(s =~= Seq::<char>::empty());
    }
}

/// Splitting two texts joined by a space gives the pieces of the first followed
/// by those of the second.
pub proof fn lemma_split_at_space(a: Seq<char>, b: Seq<char>)
    ensures
        split(a + seq![' '] + b) == split(a) + split(b),
    decreases b.len(),
{
    let s = a + seq![' '] + b;
    lemma_split_len(a);
    if b.len() == 0 {
        assert(s.drop_last() =~= a);
        assert(split(s) =~= split(a) + split(b));
    } else {
        let b2 = b.drop_last();
        lemma_split_at_space(a, b2);
        lemma_split_len(b2);
        assert(s.drop_last() =~= a + seq![' '] + b2);
        assert(s.last() == b.last());
        assert(split(s) =~= split(a) + split(b));
    }
}

/// `String::push`.
#[verifier::external_body]
fn push_char(s: &mut String, c: char)
    ensures
        final(s)@ == old(s)@.push(c),
{
    s.push(c)
}

/// The characters of a string slice, in order.
pub fn chars_of(s: &str) -> (res: Vec<char>)
    ensures
        res@ == s@,
{
    let mut res: Vec<char> = Vec::new();
    for c in it: s.chars()
        invariant
            res@ == it.seq().take(it.index() as int),
    {
        res.push(c);
    }
    res
}

/// A `String` holding the characters of `cs`.
pub fn string_from(cs: &Vec<char>) -> (res: String)
    ensures
        res@ == cs@,
{
    let mut res = String::new();
    let n = cs.len();
    for i in 0..n
        invariant
            n == cs@.len(),
            res@ == cs@.take(i as int),
    {
        push_char(&mut res, cs[i]);
        assert(cs@.take(i + 1) =~= cs@.take(i as int).push(cs@[i as int]));
    }
    assert(cs@.take(n as int) =~= cs@);
    res
}

/// The characters of `s` followed by those of `t`.
pub fn concat_chars(s: &Vec<char>, t: &Vec<char>) -> (res: Vec<char>)
    ensures
        res@ == s@ + t@,
{
    let mut res = s.clone();
    let n = t.len();
    for i in 0..n
        invariant
            n == t@.len(),
            res@ == s@ + t@.take(i as int),
    {
        res.push(t[i]);
        assert(t@.take(i + 1) =~= t@.take(i as int).push(t@[i as int]));
    }
    assert(t@.take(n as int) =~= t@);
    res
}

pub fn is_whitespace(c: char) -> (res: bool)
    ensures
        res == is_ws(c),
{
    let u = c as u32;
    u == 0x20 || (0x09 <= u && u <= 0x0d) || u == 0x85 || u == 0xa0 || u == 0x1680 || (0x2000
        <= u && u <= 0x200a) || u == 0x2028 || u == 0x2029 || u == 0x202f || u == 0x205f || u
        == 0x3000
}

/// `str::trim` on a sequence of characters.
pub fn trim_chars(s: &Vec<char>) -> (res: Vec<char>)
    ensures
        res@ == trim(s@),
{
    let n = s.len();
    let mut i: usize = 0;
    assert(s@.skip(0) =~= s@);
    while i < n && is_whitespace(s[i])
        invariant
            n == s@.len(),
            i <= n,
            trim_start(s@) == trim_start(s@.skip(i as int)),
        decreases n - i,
    {
        proof {
            lemma_trim_start_skip(s@, i as int);
        }
        i = i + 1;
    }
    let ghost rest = s@.skip(i as int);
    assert(trim_start(s@) == rest) by {
        if i < n {
            assert(!is_ws(rest[0]));
        } else {
            assert(rest.len() == 0);
        }
    }
    let mut j: usize = n;
    assert(rest.take(rest.len() as int) =~= rest);
    while j > i && is_whitespace(s[j - 1])
        invariant
            n == s@.len(),
            i <= j <= n,
            rest == s@.skip(i as int),
            trim_end(rest) == trim_end(rest.take(j - i)),
        decreases j,
    {
        proof {
            assert(rest[j - i - 1] == s@[j - 1]);
            lemma_trim_end_take(rest, j - i);
        }
        j = j - 1;
    }
    let mut res: Vec<char> = Vec::new();
    let mut k: usize = i;
    while k < j
        invariant
            n == s@.len(),
            i <= k <= j <= n,
            res@ == s@.subrange(i as int, k as int),
        decreases j - k,
    {
        res.push(s[k]);
        assert(s@.subrange(i as int, k + 1) =~= s@.subrange(i as int, k as int).push(s@[k as int]));
        k = k + 1;
    }
    assert(rest.take(j - i) =~= s@.subrange(i as int, j as int));
    proof {
        let t = rest.take(j - i);
        if t.len() > 0 {
            assert(t.last() == s@[j - 1]);
        }
    }
    res
}

/// `str::starts_with` on a sequence of characters.
pub fn starts_with_str(s: &Vec<char>, p: &str) -> (res: bool)
    ensures
        res == starts_with(s@, p@),
{
    let pc = chars_of(p);
    let m = pc.len();
    if m > s.len() {
        return false;
    }
    let mut i: usize = 0;
    while i < m
        invariant
            m == pc@.len(),
            m <= s@.len(),
            pc@ == p@,
            i <= m,
            forall|k: int| 0 <= k < i ==> s@[k] == pc@[k],
        decreases m - i,
    {
        if s[i] != pc[i] {
            assert(s@.take(m as int)[i as int] != p@[i as int]);
            return false;
        }
        i = i + 1;
    }
    assert(s@.take(m as int) =~= p@);
    true
}

/// Equality of a sequence of characters with a string slice.
pub fn eq_str(s: &Vec<char>, p: &str) -> (res: bool)
    ensures
        res == (s@ == p@),
{
    let pc = chars_of(p);
    chars_eq(s, &pc)
}

/// Equality of two sequences of characters.
pub fn chars_eq(s: &Vec<char>, t: &Vec<char>) -> (res: bool)
    ensures
        res == (s@ == t@),
{
    if s.len() != t.len() {
        return false;
    }
    let n = s.len();
    for i in 0..n
        invariant
            n == s@.len(),
            n == t@.len(),
            forall|k: int| 0 <= k < i ==> s@[k] == t@[k],
    {
        if s[i] != t[i] {
            return false;
        }
    }
    assert(s@ =~= t@);
    true
}

/// `str::split(' ')` on a sequence of characters.
pub fn split_chars(s: &Vec<char>) -> (res: Vec<Vec<char>>)
    ensures
        res.deep_view() == split(s@),
        res@.len() >= 1,
{
    let mut done: Vec<Vec<char>> = Vec::new();
    let mut cur: Vec<char> = Vec::new();
    let n = s.len();
    assert(s@.take(0) =~= Seq::<char>::empty());
    for i in 0..n
        invariant
            n == s@.len(),
            done.deep_view().push(cur@) == split(s@.take(i as int)),
    {
        let c = s[i];
        let ghost pre = s@.take(i as int);
        let ghost next = s@.take(i + 1);
        assert(next.drop_last() =~= pre);
        assert(next.last() == c);
        let ghost old_done = done.deep_view();
        let ghost old_cur = cur@;
        let ghost old_vec = done@;
        if c == ' ' {
            let piece = cur;
            done.push(piece);
            cur = Vec::new();
            assert(done.deep_view() =~= old_done.push(old_cur)) by {
                assert(done@.len() == old_vec.len() + 1);
                assert(done.deep_view()[old_vec.len() as int] == old_cur);
                assert forall|k: int| 0 <= k < old_done.len() implies done.deep_view()[k]
                    == old_done[k] by {
                    assert(done@[k] == old_vec[k]);
                    assert(old_done[k] == old_vec[k]@);
                }
            }
            assert(done.deep_view().push(cur@) =~= split(next));
        } else {
            cur.push(c);
            assert(done.deep_view() =~= old_done);
            assert(done.deep_view().push(cur@) =~= split(next));
        }
    }
    assert(s@.take(n as int) =~= s@);
    let ghost before = done.deep_view();
    let ghost last = cur@;
    let ghost old_done = done@;
    done.push(cur);
    assert(done.deep_view() =~= before.push(last)) by {
        assert(done@.len() == old_done.len() + 1);
        assert(done.deep_view()[old_done.len() as int] == last);
        assert forall|k: int| 0 <= k < before.len() implies done.deep_view()[k] == before[k] by {
            assert(done@[k] == old_done[k]);
            assert(before[k] == old_done[k]@);
        }
    }
    done
}

/// `join(" ")` of the pieces from index `from` on.
pub fn join_from(parts: &Vec<Vec<char>>, from: usize) -> (res: Vec<char>)
    requires
        from <= parts@.len(),
    ensures
        res@ == join(parts.deep_view().skip(from as int)),
{
    let n = parts.len();
    let ghost dv = parts.deep_view();
    let mut res: Vec<char> = Vec::new();
    let mut k: usize = from;
    assert(dv.skip(from as int).take(0) =~= Seq::<Seq<char>>::empty());
    while k < n
        invariant
            n == parts@.len(),
            dv == parts.deep_view(),
            from <= k <= n,
            res@ == join(dv.skip(from as int).take(k - from)),
        decreases n - k,
    {
        let ghost prev = dv.skip(from as int).take(k - from);
        let ghost next = dv.skip(from as int).take(k + 1 - from);
        assert(next.drop_last() =~= prev);
        assert(next.last() == parts@[k as int]@);
        if k > from {
            res.push(' ');
        }
        let joined = concat_chars(&res, &parts[k]);
        res = joined;
        proof {
            if k == from {
                assert(next.len() == 1);
            }
        }
        k = k + 1;
    }
    assert(dv.skip(from as int).take(n - from) =~= dv.skip(from as int));
    res
}

/// `str::make_ascii_lowercase` on a sequence of characters.
pub fn lower_chars(s: &Vec<char>) -> (res: Vec<char>)
    ensures
        res@ == lower(s@),
{
    let mut res: Vec<char> = Vec::new();
    let n = s.len();
    for i in 0..n
        invariant
            n == s@.len(),
            res@ == lower(s@.take(i as int)),
    {
        let c = s[i];
        let l = if 'A' <= c && c <= 'Z' {
            char_from_u32((c as u32) + 32)
        } else {
            c
        };
        res.push(l);
        assert(lower(s@.take(i + 1)) =~= lower(s@.take(i as int)).push(ascii_lower(c)));
    }
    assert(s@.take(n as int) =~= s@);
    res
}

/// `char::from_u32` on a value known to be a scalar of the ASCII range.
fn char_from_u32(u: u32) -> (c: char)
    requires
        u < 128,
    ensures
        c == u as char,
{
    let b = u as u8;
    b as char
}

/// The decimal digits of `n`.
pub fn decimal_chars(n: usize) -> (res: Vec<char>)
    ensures
        res@ == decimal(n as nat),
    decreases n,
{
    let d = char_from_u32((n % 10) as u32 + 48);
    if n < 10 {
        let mut res: Vec<char> = Vec::new();
        res.push(d);
        res
    } else {
        let mut res = decimal_chars(n / 10);
        res.push(d);
        res
    }
}

/// `usize::to_string`.
pub fn decimal_string(n: usize) -> (res: String)
    ensures
        res@ == decimal(n as nat),
{
    let cs = decimal_chars(n);
    string_from(&cs)
}

/// `String::from_utf8`: fails exactly when the bytes are not UTF-8; otherwise the
/// string of the characters they encode.
#[verifier::external_body]
pub(crate) fn string_from_utf8(bytes: &[u8]) -> (res: Option<String>)
    ensures
        res is Some <==> valid_utf8(bytes@),
        res is Some ==> res.unwrap()@ == decode_utf8(bytes@),
{
    String::from_utf8(bytes.to_vec()).ok()
}

/// Equality of two byte sequences.
pub fn bytes_eq(a: &[u8], b: &[u8]) -> (res: bool)
    ensures
        res == (a@ == b@),
{
    if a.len() != b.len() {
        return false;
    }
    let n = a.len();
    for i in 0..n
        invariant
            n == a@.len(),
            n == b@.len(),
            forall|k: int| 0 <= k < i ==> a@[k] == b@[k],
    {
        if a[i] != b[i] {
            return false;
        }
    }
    assert(a@ =~= b@);
    true
}

} // verus!
