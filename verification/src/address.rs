use vstd::prelude::*;

verus! {

/// Whether `c` is an ASCII decimal digit.
pub open spec fn is_digit(c: char) -> bool {
    '0' <= c && c <= '9'
}

/// The value of a decimal digit.
pub open spec fn digit_value(c: char) -> nat {
    ((c as int) - ('0' as int)) as nat
}

/// The value of a run of decimal digits, most significant first.
pub open spec fn digits_value(t: Seq<char>) -> nat
    decreases t.len(),
{
    if t.len() == 0 {
        0
    } else {
        digits_value(t.drop_last()) * 10 + digit_value(t.last())
    }
}

/// The octet that a part of a dotted-quad address stands for: one to three
/// decimal digits, no leading zero unless the part is `0` itself, at most 255.
pub open spec fn octet_of_text(t: Seq<char>) -> Option<u8> {
    if 1 <= t.len() <= 3 && (forall|i: int| 0 <= i < t.len() ==> is_digit(#[trigger] t[i]))
        && !(t.len() > 1 && t[0] == '0') && digits_value(t) <= 255 {
        Some(digits_value(t) as u8)
    } else {
        None
    }
}

/// The parts of a text between its dots, in order (a text with `n` dots has
/// `n + 1` parts, some of which may be empty).
pub open spec fn split_dots(s: Seq<char>) -> Seq<Seq<char>>
    decreases s.len(),
{
    if s.len() == 0 {
        seq![Seq::<char>::empty()]
    } else {
        let rest = split_dots(s.drop_last());
        if s.last() == '.' {
            rest.push(Seq::<char>::empty())
        } else {
            rest.update(rest.len() - 1, rest.last().push(s.last()))
        }
    }
}

/// The IPv4 address that a dotted-quad text stands for: exactly four parts
/// between dots, each of them an octet text.
pub open spec fn ipv4_of_text(s: Seq<char>) -> Option<Seq<u8>> {
    let parts = split_dots(s);
    if parts.len() == 4 && (forall|i: int| 0 <= i < 4 ==> (#[trigger] octet_of_text(parts[i])) is Some) {
        Some(seq![
            octet_of_text(parts[0])->0,
            octet_of_text(parts[1])->0,
            octet_of_text(parts[2])->0,
            octet_of_text(parts[3])->0,
        ])
    } else {
        None
    }
}

/// The eight 16-bit groups of the IPv4-mapped IPv6 address `::ffff:a.b.c.d`.
pub open spec fn ipv4_mapped(ip: Seq<u8>) -> Seq<u16> {
    seq![0u16, 0u16, 0u16, 0u16, 0u16, 0xffffu16,
        (ip[0] * 256 + ip[1]) as u16, (ip[2] * 256 + ip[3]) as u16]
}

/// The IPv4 address held in an IPv6 address that is IPv4-compatible
/// (`::a.b.c.d`) or IPv4-mapped (`::ffff:a.b.c.d`), and no other.
pub open spec fn embedded_ipv4(seg: Seq<u16>) -> Option<Seq<u8>> {
    if seg[0] == 0 && seg[1] == 0 && seg[2] == 0 && seg[3] == 0 && seg[4] == 0
        && (seg[5] == 0 || seg[5] == 0xffff) {
        Some(seq![(seg[6] / 256) as u8, (seg[6] % 256) as u8, (seg[7] / 256) as u8, (seg[7] % 256) as u8])
    } else {
        None
    }
}

proof fn lemma_split_dots_nonempty(s: Seq<char>)
    ensures
        split_dots(s).len() >= 1,
    decreases s.len(),
{
    if s.len() > 0 {
        lemma_split_dots_nonempty(s.drop_last());
    }
}

/// The characters of a text, one by one.
pub fn chars_of(s: &str) -> (r: Vec<char>)
    ensures
        r@ == s@,
{
    let n = s.unicode_len();
    let mut r: Vec<char> = Vec::new();
    let mut i: usize = 0;
    while i < n
        invariant
            n == s@.len(),
            i <= n,
            r@ == s@.take(i as int),
        decreases n - i,
    {
        let c = s.get_char(i);
        r.push(c);
        assert(s@.take(i + 1) =~= s@.take(i as int).push(c));
        i = i + 1;
    }
    assert(s@.take(n as int) =~= s@);
    r
}

/// Splits a text at its dots.
pub fn split_at_dots(s: &Vec<char>) -> (r: Vec<Vec<char>>)
    ensures
        r@.len() == split_dots(s@).len(),
        forall|i: int| 0 <= i < r@.len() ==> (#[trigger] r@[i])@ == split_dots(s@)[i],
{
    let mut parts: Vec<Vec<char>> = Vec::new();
    parts.push(Vec::new());
    let mut i: usize = 0;
    assert(s@.take(0) =~= Seq::<char>::empty());
    while i < s.len()
        invariant
            i <= s@.len(),
            parts@.len() == split_dots(s@.take(i as int)).len(),
            parts@.len() >= 1,
            forall|j: int| 0 <= j < parts@.len() ==> (#[trigger] parts@[j])@ == split_dots(s@.take(i as int))[j],
        decreases s@.len() - i,
    {
        let c = s[i];
        let ghost pre = s@.take(i as int);
        let ghost cur = s@.take(i + 1);
        assert(cur.drop_last() =~= pre);
        assert(cur.last() == c);
        proof { lemma_split_dots_nonempty(pre); }
        if c == '.' {
            parts.push(Vec::new());
        } else {
            let last = parts.len() - 1;
            let mut tail = parts.pop().unwrap();
            tail.push(c);
            parts.push(tail);
            assert(parts@[last as int]@ =~= split_dots(cur)[last as int]);
        }
        assert forall|j: int| 0 <= j < parts@.len() implies (#[trigger] parts@[j])@ == split_dots(cur)[j] by {
            if j < parts@.len() - 1 {
                assert(split_dots(cur)[j] == split_dots(pre)[j]);
            }
        }
        i = i + 1;
    }
    assert(s@.take(s@.len() as int) =~= s@);
    parts
}

/// Reads one part of a dotted-quad text as an octet.
pub fn octet_from_text(t: &Vec<char>) -> (r: Option<u8>)
    ensures
        r == octet_of_text(t@),
{
    let n = t.len();
    if n < 1 || n > 3 {
        return None;
    }
    if n > 1 && t[0] == '0' {
        return None;
    }
    let mut value: u32 = 0;
    let mut i: usize = 0;
    assert(t@.take(0) =~= Seq::<char>::empty());
    while i < n
        invariant
            n == t@.len(),
            1 <= n <= 3,
            i <= n,
            forall|j: int| 0 <= j < i ==> is_digit(#[trigger] t@[j]),
            value == digits_value(t@.take(i as int)),
            value < (if i == 0 { 1int } else if i == 1 { 10int } else if i == 2 { 100int } else { 1000int }),
        decreases n - i,
    {
        let c = t[i];
        if !('0' <= c && c <= '9') {
            assert(!is_digit(t@[i as int]));
            return None;
        }
        let d = (c as u32) - ('0' as u32);
        assert(t@.take(i + 1).drop_last() =~= t@.take(i as int));
        value = value * 10 + d;
        i = i + 1;
    }
    assert(t@.take(n as int) =~= t@);
    if value > 255 {
        return None;
    }
    Some(value as u8)
}

/// Parses a dotted-quad IPv4 address such as `"1.2.3.4"`.
pub fn parse_ipv4(s: &str) -> (r: Option<[u8; 4]>)
    ensures
        match ipv4_of_text(s@) {
            Some(ip) => r matches Some(a) && a@ == ip,
            None => r is None,
        },
{
    let chars = chars_of(s);
    let parts = split_at_dots(&chars);
    if parts.len() != 4 {
        return None;
    }
    let a = match octet_from_text(&parts[0]) { Some(v) => v, None => return None };
    let b = match octet_from_text(&parts[1]) { Some(v) => v, None => return None };
    let c = match octet_from_text(&parts[2]) { Some(v) => v, None => return None };
    let d = match octet_from_text(&parts[3]) { Some(v) => v, None => return None };
    let ghost parts_spec = split_dots(s@);
    assert(forall|i: int| 0 <= i < 4 ==> (#[trigger] octet_of_text(parts_spec[i])) is Some) by {
        assert(parts_spec[0] == parts@[0]@);
        assert(parts_spec[1] == parts@[1]@);
        assert(parts_spec[2] == parts@[2]@);
        assert(parts_spec[3] == parts@[3]@);
    }
    let r = [a, b, c, d];
    assert(r@ =~= ipv4_of_text(s@)->0);
    Some(r)
}

/// The groups of the IPv4-mapped IPv6 address of `ip`.
pub fn mapped_segments(ip: &[u8; 4]) -> (r: [u16; 8])
    ensures
        r@ == ipv4_mapped(ip@),
{
    let r = [0u16, 0, 0, 0, 0, 0xffff,
        (ip[0] as u16) * 256 + (ip[1] as u16), (ip[2] as u16) * 256 + (ip[3] as u16)];
    assert(r@ =~= ipv4_mapped(ip@));
    r
}

/// The IPv4 address embedded in an IPv4-compatible or IPv4-mapped IPv6 address.
pub fn to_ipv4(seg: &[u16; 8]) -> (r: Option<[u8; 4]>)
    ensures
        match embedded_ipv4(seg@) {
            Some(ip) => r matches Some(a) && a@ == ip,
            None => r is None,
        },
{
    if seg[0] == 0 && seg[1] == 0 && seg[2] == 0 && seg[3] == 0 && seg[4] == 0
        && (seg[5] == 0 || seg[5] == 0xffff) {
        let r = [(seg[6] / 256) as u8, (seg[6] % 256) as u8, (seg[7] / 256) as u8, (seg[7] % 256) as u8];
        assert(r@ =~= embedded_ipv4(seg@)->0);
        Some(r)
    } else {
        None
    }
}

/// The IPv4 address embedded in the IPv4-mapped form of `ip` is `ip` again.
pub proof fn lemma_mapped_round_trip(ip: Seq<u8>)
    requires
        ip.len() == 4,
    ensures
        embedded_ipv4(ipv4_mapped(ip)) == Some(ip),
{
    let seg = ipv4_mapped(ip);
    let back = embedded_ipv4(seg)->0;
    assert(back =~= ip);
}

/// The lowercase hexadecimal digit of value `d` (below 16).
pub open spec fn hex_digit(d: nat) -> char {
    "0123456789abcdef"@[d as int]
}

/// A number in lowercase hexadecimal, without leading zeros.
pub open spec fn hex_text(v: nat) -> Seq<char>
    decreases v,
{
    if v < 16 {
        seq![hex_digit(v)]
    } else {
        hex_text(v / 16).push(hex_digit(v % 16))
    }
}

/// A number in decimal, without leading zeros.
pub open spec fn dec_text(v: nat) -> Seq<char>
    decreases v,
{
    if v < 10 {
        seq!["0123456789"@[v as int]]
    } else {
        dec_text(v / 10).push("0123456789"@[(v % 10) as int])
    }
}

/// Groups in hexadecimal, separated by colons.
pub open spec fn groups_text(g: Seq<u16>) -> Seq<char>
    decreases g.len(),
{
    if g.len() == 0 {
        Seq::<char>::empty()
    } else if g.len() == 1 {
        hex_text(g[0] as nat)
    } else {
        groups_text(g.drop_last()) + ":"@ + hex_text(g.last() as nat)
    }
}

/// How many zero groups follow one another from position `i` on.
pub open spec fn zero_run(g: Seq<u16>, i: int) -> nat
    decreases g.len() - i,
{
    if 0 <= i < g.len() && g[i] == 0 {
        1 + zero_run(g, i + 1)
    } else {
        0
    }
}

/// `(start, len)` is the leftmost of the longest runs of zero groups of the
/// eight groups `g`.
pub open spec fn is_longest_zero_run(g: Seq<u16>, run: (int, nat)) -> bool {
    let (start, len) = run;
    &&& 0 <= start < 8
    &&& len == zero_run(g, start)
    &&& forall|i: int| 0 <= i < 8 ==> #[trigger] zero_run(g, i) <= len
    &&& forall|i: int| 0 <= i < start ==> #[trigger] zero_run(g, i) < len
}

/// The leftmost of the longest runs of zero groups.
pub open spec fn longest_zero_run(g: Seq<u16>) -> (int, nat) {
    choose|p: (int, nat)| is_longest_zero_run(g, p)
}

/// The text of an IPv6 address as the standard library displays it: an
/// IPv4-mapped address as `::ffff:` and the dotted quad; any other with its
/// groups in hexadecimal, the leftmost longest run of two or more zero
/// groups written as `::`.
pub open spec fn ipv6_display(g: Seq<u16>) -> Seq<char> {
    if g[0] == 0 && g[1] == 0 && g[2] == 0 && g[3] == 0 && g[4] == 0 && g[5] == 0xffff {
        "::ffff:"@ + dec_text((g[6] / 256) as nat) + "."@ + dec_text((g[6] % 256) as nat) + "."@
            + dec_text((g[7] / 256) as nat) + "."@ + dec_text((g[7] % 256) as nat)
    } else {
        let (start, len) = longest_zero_run(g);
        if len > 1 {
            groups_text(g.take(start)) + "::"@ + groups_text(g.skip(start + len))
        } else {
            groups_text(g)
        }
    }
}

/// Appends the hexadecimal text of `v`.
fn append_hex(s: &mut String, v: u16)
    ensures
        final(s)@ == old(s)@ + hex_text(v as nat),
    decreases v,
{
    let digits = "0123456789abcdef";
    proof {
        reveal_strlit("0123456789abcdef");
    }
    if v >= 16 {
        append_hex(s, v / 16);
    }
    let d = (v % 16) as usize;
    s.append(digits.substring_char(d, d + 1));
    proof {
        assert(digits@.subrange(d as int, d + 1) =~= seq![hex_digit(d as nat)]);
        if v >= 16 {
            assert(hex_text(v as nat) == hex_text((v / 16) as nat).push(hex_digit((v % 16) as nat)));
        } else {
            assert(hex_text(v as nat) == seq![hex_digit(v as nat)]);
        }
    }
}

/// Appends the decimal text of `v`.
pub fn append_dec(s: &mut String, v: u16)
    ensures
        final(s)@ == old(s)@ + dec_text(v as nat),
    decreases v,
{
    let digits = "0123456789";
    proof {
        reveal_strlit("0123456789");
    }
    if v >= 10 {
        append_dec(s, v / 10);
    }
    let d = (v % 10) as usize;
    s.append(digits.substring_char(d, d + 1));
    proof {
        assert(digits@.subrange(d as int, d + 1) =~= seq!["0123456789"@[d as int]]);
    }
}

/// Appends the groups `g[from..to]` in hexadecimal, separated by colons.
fn append_groups(s: &mut String, g: &[u16; 8], from: usize, to: usize)
    requires
        from <= to <= 8,
    ensures
        final(s)@ == old(s)@ + groups_text(g@.subrange(from as int, to as int)),
{
    let mut k: usize = from;
    assert(g@.subrange(from as int, from as int) =~= Seq::<u16>::empty());
    while k < to
        invariant
            from <= k <= to <= 8,
            s@ == old(s)@ + groups_text(g@.subrange(from as int, k as int)),
        decreases to - k,
    {
        let ghost pre = g@.subrange(from as int, k as int);
        let ghost cur = g@.subrange(from as int, k + 1);
        assert(cur.drop_last() =~= pre);
        if k > from {
            s.append(":");
            proof { reveal_strlit(":"); }
        }
        append_hex(s, g[k]);
        proof {
            if k == from {
                assert(pre.len() == 0);
                assert(groups_text(cur) == hex_text(g@[k as int] as nat));
            }
            assert(s@ =~= old(s)@ + groups_text(cur));
        }
        k = k + 1;
    }
}

/// How many zero groups follow one another from position `i` on.
fn zero_run_at(g: &[u16; 8], i: usize) -> (r: usize)
    requires
        i < 8,
    ensures
        r == zero_run(g@, i as int),
{
    let mut k: usize = i;
    while k < 8 && g[k] == 0
        invariant
            i <= k <= 8,
            zero_run(g@, i as int) == (k - i) + zero_run(g@, k as int),
        decreases 8 - k,
    {
        k = k + 1;
    }
    k - i
}

proof fn lemma_zero_run_bound(g: Seq<u16>, i: int)
    requires
        g.len() == 8,
        0 <= i,
    ensures
        zero_run(g, i) <= 8,
        i <= 8 ==> zero_run(g, i) <= 8 - i,
    decreases 8 - i,
{
    if i < 8 {
        lemma_zero_run_bound(g, i + 1);
    }
}

/// The leftmost of the longest runs of zero groups.
fn find_longest_zero_run(g: &[u16; 8]) -> (r: (usize, usize))
    ensures
        is_longest_zero_run(g@, (r.0 as int, r.1 as nat)),
        r == (longest_zero_run(g@).0 as usize, longest_zero_run(g@).1 as usize),
        r.0 + r.1 <= 8,
{
    let mut start: usize = 0;
    let mut len: usize = zero_run_at(g, 0);
    let mut i: usize = 1;
    while i < 8
        invariant
            1 <= i <= 8,
            start < i,
            len == zero_run(g@, start as int),
            forall|j: int| 0 <= j < i ==> #[trigger] zero_run(g@, j) <= len,
            forall|j: int| 0 <= j < start ==> #[trigger] zero_run(g@, j) < len,
        decreases 8 - i,
    {
        let l = zero_run_at(g, i);
        if l > len {
            start = i;
            len = l;
        }
        i = i + 1;
    }
    proof {
        lemma_zero_run_bound(g@, start as int);
        let p = longest_zero_run(g@);
        let w: (int, nat) = (start as int, len as nat);
        assert(is_longest_zero_run(g@, w));
        assert(is_longest_zero_run(g@, p));
        assert(zero_run(g@, p.0) <= len);
        assert(zero_run(g@, start as int) <= p.1);
        if p.0 < start {
            assert(zero_run(g@, p.0) < len);
        }
        if start < p.0 {
            assert(zero_run(g@, start as int) < p.1);
        }
    }
    (start, len)
}

/// The text of an IPv6 address as the standard library displays it.
pub fn ipv6_text(g: &[u16; 8]) -> (r: String)
    ensures
        r@ == ipv6_display(g@),
{
    let mut s = String::new();
    if g[0] == 0 && g[1] == 0 && g[2] == 0 && g[3] == 0 && g[4] == 0 && g[5] == 0xffff {
        s.append("::ffff:");
        append_dec(&mut s, g[6] / 256);
        s.append(".");
        append_dec(&mut s, g[6] % 256);
        s.append(".");
        append_dec(&mut s, g[7] / 256);
        s.append(".");
        append_dec(&mut s, g[7] % 256);
        return s;
    }
    let (start, len) = find_longest_zero_run(g);
    if len > 1 {
        append_groups(&mut s, g, 0, start);
        s.append("::");
        append_groups(&mut s, g, start + len, 8);
        assert(g@.subrange(0, start as int) =~= g@.take(start as int));
        assert(g@.subrange((start + len) as int, 8) =~= g@.skip((start + len) as int));
    } else {
        append_groups(&mut s, g, 0, 8);
        assert(g@.subrange(0, 8) =~= g@);
    }
    s
}

/// The dotted-quad text of an IPv4 address.
pub open spec fn ipv4_text(ip: Seq<u8>) -> Seq<char> {
    dec_text(ip[0] as nat) + "."@ + dec_text(ip[1] as nat) + "."@ + dec_text(ip[2] as nat) + "."@
        + dec_text(ip[3] as nat)
}

/// The text under which a peer at the IPv6 address `g` is stored: the
/// dotted quad where `g` embeds an IPv4 address, else its IPv6 text.
pub open spec fn peer_ip_text(g: Seq<u16>) -> Seq<char> {
    match embedded_ipv4(g) {
        Some(ip) => ipv4_text(ip),
        None => ipv6_display(g),
    }
}

/// The dotted-quad text of an IPv4 address.
pub fn ipv4_text_of(ip: &[u8; 4]) -> (r: String)
    ensures
        r@ == ipv4_text(ip@),
{
    let mut s = String::new();
    append_dec(&mut s, ip[0] as u16);
    s.append(".");
    append_dec(&mut s, ip[1] as u16);
    s.append(".");
    append_dec(&mut s, ip[2] as u16);
    s.append(".");
    append_dec(&mut s, ip[3] as u16);
    assert(s@ =~= ipv4_text(ip@));
    s
}

/// The text under which a peer at the IPv6 address `g` is stored.
pub fn peer_ip_text_of(g: &[u16; 8]) -> (r: String)
    ensures
        r@ == peer_ip_text(g@),
{
    match to_ipv4(g) {
        Some(ip) => ipv4_text_of(&ip),
        None => ipv6_text(g),
    }
}

/// The digit characters and their values.
proof fn lemma_digit_char(d: nat)
    requires
        d < 10,
    ensures
        is_digit("0123456789"@[d as int]),
        digit_value("0123456789"@[d as int]) == d,
{
    reveal_strlit("0123456789");
    assert("0123456789"@ =~= seq!['0', '1', '2', '3', '4', '5', '6', '7', '8', '9']);
    if d == 0 {} else if d == 1 {} else if d == 2 {} else if d == 3 {} else if d == 4 {}
    else if d == 5 {} else if d == 6 {} else if d == 7 {} else if d == 8 {} else {}
}

/// The decimal text of a number is digits only, reads back as the number,
/// and starts with a zero only where it is `0` itself.
proof fn lemma_dec_text(v: nat)
    ensures
        dec_text(v).len() >= 1,
        forall|i: int| 0 <= i < dec_text(v).len() ==> is_digit(#[trigger] dec_text(v)[i]),
        digits_value(dec_text(v)) == v,
        v >= 1 ==> dec_text(v)[0] != '0',
        v < 10 ==> dec_text(v).len() == 1,
        10 <= v < 100 ==> dec_text(v).len() == 2,
        100 <= v < 1000 ==> dec_text(v).len() == 3,
    decreases v,
{
    if v < 10 {
        lemma_digit_char(v);
        let t = dec_text(v);
        assert(t.drop_last() =~= Seq::<char>::empty());
        assert(digits_value(t) == digits_value(t.drop_last()) * 10 + digit_value(t.last()));
    } else {
        lemma_dec_text(v / 10);
        lemma_digit_char(v % 10);
        let h = dec_text(v / 10);
        let t = dec_text(v);
        assert(t.drop_last() =~= h);
        assert(t[0] == h[0]);
        assert(digits_value(t) == digits_value(h) * 10 + digit_value(t.last()));
        assert(forall|i: int| 0 <= i < t.len() ==> is_digit(#[trigger] t[i])) by {
            assert forall|i: int| 0 <= i < t.len() implies is_digit(#[trigger] t[i]) by {
                if i < h.len() {
                    assert(t[i] == h[i]);
                }
            }
        }
    }
}

/// The octet text of a byte reads back as the byte.
proof fn lemma_octet_text(b: u8)
    ensures
        octet_of_text(dec_text(b as nat)) == Some(b),
        forall|i: int| 0 <= i < dec_text(b as nat).len() ==> #[trigger] dec_text(b as nat)[i] != '.',
{
    lemma_dec_text(b as nat);
    let t = dec_text(b as nat);
    if t.len() > 1 {
        assert(b >= 10);
    }
    assert forall|i: int| 0 <= i < t.len() implies #[trigger] t[i] != '.' by {
        assert(is_digit(t[i]));
    }
}

/// Adding a text without dots to the end extends the last part.
proof fn lemma_split_dots_append(s: Seq<char>, t: Seq<char>)
    requires
        forall|i: int| 0 <= i < t.len() ==> #[trigger] t[i] != '.',
    ensures
        split_dots(s + t) == split_dots(s).update(split_dots(s).len() - 1, split_dots(s).last() + t),
    decreases t.len(),
{
    lemma_split_dots_nonempty(s);
    if t.len() == 0 {
        assert(s + t =~= s);
        assert(split_dots(s).last() + t =~= split_dots(s).last());
        assert(split_dots(s).update(split_dots(s).len() - 1, split_dots(s).last()) =~= split_dots(s));
    } else {
        let u = t.drop_last();
        lemma_split_dots_append(s, u);
        assert((s + t).drop_last() =~= s + u);
        assert((s + t).last() == t.last());
        let p = split_dots(s);
        let q = split_dots(s + u);
        assert(q.len() == p.len());
        assert(q.last() == p.last() + u);
        assert(q.last().push(t.last()) =~= p.last() + t);
        assert(split_dots(s + t) =~= p.update(p.len() - 1, p.last() + t));
    }
}

/// Adding a dot to the end starts a new, empty part.
proof fn lemma_split_dots_dot(s: Seq<char>)
    ensures
        split_dots(s + "."@) == split_dots(s).push(Seq::<char>::empty()),
{
    reveal_strlit(".");
    let t = s + "."@;
    assert(t.drop_last() =~= s);
    assert(t.last() == '.');
}

/// A dotted-quad text reads back as the address it was written from: a peer
/// stored under the text of an embedded IPv4 address is dialled at that address.
pub proof fn lemma_ipv4_text_round_trip(ip: Seq<u8>)
    requires
        ip.len() == 4,
    ensures
        ipv4_of_text(ipv4_text(ip)) == Some(ip),
{
    let d0 = dec_text(ip[0] as nat);
    let d1 = dec_text(ip[1] as nat);
    let d2 = dec_text(ip[2] as nat);
    let d3 = dec_text(ip[3] as nat);
    lemma_octet_text(ip[0]);
    lemma_octet_text(ip[1]);
    lemma_octet_text(ip[2]);
    lemma_octet_text(ip[3]);
    let e = Seq::<char>::empty();
    lemma_split_dots_append(e, d0);
    assert(e + d0 =~= d0);
    assert(split_dots(e) =~= seq![e]);
    assert(split_dots(d0) =~= seq![d0]);
    let s1 = d0 + "."@;
    lemma_split_dots_dot(d0);
    lemma_split_dots_append(s1, d1);
    assert(split_dots(s1 + d1) =~= seq![d0, d1]);
    let s2 = s1 + d1 + "."@;
    lemma_split_dots_dot(s1 + d1);
    lemma_split_dots_append(s2, d2);
    assert(split_dots(s2 + d2) =~= seq![d0, d1, d2]);
    let s3 = s2 + d2 + "."@;
    lemma_split_dots_dot(s2 + d2);
    lemma_split_dots_append(s3, d3);
    assert(split_dots(s3 + d3) =~= seq![d0, d1, d2, d3]);
    assert(ipv4_text(ip) == s3 + d3);
    let parts = split_dots(ipv4_text(ip));
    assert(parts[0] == d0 && parts[1] == d1 && parts[2] == d2 && parts[3] == d3);
    assert(ipv4_of_text(ipv4_text(ip))->0 =~= ip);
}

/// The text under which a peer from an `addr` message is stored reads back
/// as its IPv4 address wherever the announced address embeds one.
pub proof fn lemma_peer_ip_text_dialable(g: Seq<u16>)
    requires
        g.len() == 8,
        embedded_ipv4(g) is Some,
    ensures
        ipv4_of_text(peer_ip_text(g)) == embedded_ipv4(g),
{
    lemma_ipv4_text_round_trip(embedded_ipv4(g)->0);
}

} // verus!
