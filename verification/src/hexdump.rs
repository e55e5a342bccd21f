use vstd::prelude::*;

verus! {

/// Upper-case hexadecimal digit of a value below 16.
pub open spec fn hex_digit(d: nat) -> char {
    if d < 10 {
        (48 + d) as char
    } else {
        (55 + d) as char
    }
}

/// Upper-case hexadecimal notation of `n`, padded with leading zeros to at
/// least `width` digits (what `{:0width$X}` prints).
pub open spec fn hex_padded(n: nat, width: nat) -> Seq<char>
    decreases n, width,
{
    if n < 16 && width <= 1 {
        seq![hex_digit(n)]
    } else {
        hex_padded(n / 16, if width > 0 { (width - 1) as nat } else { 0 }) + seq![hex_digit(n % 16)]
    }
}

/// `n` spaces.
pub open spec fn spaces(n: nat) -> Seq<char> {
    Seq::new(n, |i: int| ' ')
}

/// Whether a byte shows as itself in the text column: the visible
/// characters of ASCII (`0x21..=0x7e`) and of the upper half of Latin-1
/// (`0xa1..=0xff`). Spaces, control characters and `0x7f..=0xa0` do not.
pub open spec fn is_visible(b: u8) -> bool {
    (0x21 <= b && b <= 0x7e) || 0xa1 <= b
}

/// How a byte shows in the text column: as the Latin-1 character of that
/// code when it is visible, else as a dot.
pub open spec fn ascii_of(b: u8) -> char {
    if is_visible(b) {
        b as char
    } else {
        '.'
    }
}

/// The text column of the bytes `data[lo..hi]`.
pub open spec fn ascii_run(data: Seq<u8>, lo: int, hi: int) -> Seq<char> {
    data.subrange(lo, hi).map_values(|b: u8| ascii_of(b))
}

/// The first line of a dump: six dashes, then the column numbers `00` to `0F`,
/// each followed by a space.
pub open spec fn header_upto(k: nat) -> Seq<char>
    decreases k,
{
    if k == 0 {
        seq!['-', '-', '-', '-', '-', '-']
    } else {
        header_upto((k - 1) as nat) + hex_padded((k - 1) as nat, 2) + seq![' ']
    }
}

pub open spec fn header() -> Seq<char> {
    header_upto(16)
}

/// What is written before byte `i`: at the start of each row of sixteen
/// bytes, a tab, the text column of the previous row, a newline and the
/// offset of the row in (at least four) hex digits with a colon.
pub open spec fn row_prefix(data: Seq<u8>, i: nat) -> Seq<char> {
    if i % 16 == 0 {
        seq!['\t'] + ascii_run(data, if i >= 16 { i - 16 } else { 0 }, i as int) + seq!['\n']
            + hex_padded(i, 4) + seq![':']
    } else {
        seq![]
    }
}

/// The text written for the first `k` bytes of `data`: each byte is a space
/// and two hex digits, preceded by its row prefix.
pub open spec fn dump_body(data: Seq<u8>, k: nat) -> Seq<char>
    decreases k,
{
    if k == 0 {
        seq![]
    } else {
        dump_body(data, (k - 1) as nat) + row_prefix(data, (k - 1) as nat) + seq![' ']
            + hex_padded(data[k - 1] as nat, 2)
    }
}

/// Index of the first byte of the row that holds byte `i`.
pub open spec fn row_start(i: int) -> int {
    i - i % 16
}

/// Start of the last (possibly partial) row of `len` bytes.
pub open spec fn last_row_start(len: nat) -> int {
    if len == 0 {
        0
    } else {
        row_start(len - 1)
    }
}

/// One space for each byte missing from the last row.
pub open spec fn padding(len: nat) -> Seq<char> {
    if len % 16 != 0 {
        spaces((16 - len % 16) as nat)
    } else {
        seq![]
    }
}

/// The whole dump of `data`.
pub open spec fn hexdump_spec(data: Seq<u8>) -> Seq<char> {
    header() + dump_body(data, data.len()) + padding(data.len()) + seq!['\t'] + ascii_run(
        data,
        last_row_start(data.len()),
        data.len() as int,
    )
}

fn hex_digit_exec(d: u8) -> (c: char)
    requires
        d < 16,
    ensures
        c == hex_digit(d as nat),
{
    if d < 10 {
        (48u8 + d) as char
    } else {
        (55u8 + d) as char
    }
}

/// Appends `n` in upper-case hex, at least `width` digits wide.
fn push_hex(out: &mut String, n: usize, width: usize)
    ensures
        final(out)@ == old(out)@ + hex_padded(n as nat, width as nat),
    decreases n, width,
{
    if n < 16 && width <= 1 {
        out.push(hex_digit_exec(n as u8));
    } else {
        let w = if width > 0 { width - 1 } else { 0 };
        push_hex(out, n / 16, w);
        out.push(hex_digit_exec((n % 16) as u8));
    }
}

fn push_chars(out: &mut String, chars: &Vec<char>)
    ensures
        final(out)@ == old(out)@ + chars@,
{
    let ghost start = out@;
    let mut j: usize = 0;
    while j < chars.len()
        invariant
            j <= chars.len(),
            out@ == start + chars@.subrange(0, j as int),
        decreases chars.len() - j,
    {
        out.push(chars[j]);
        proof {
            assert(chars@.subrange(0, j + 1) == chars@.subrange(0, j as int).push(chars@[j as int]));
        }
        j = j + 1;
    }
    proof {
        assert(chars@.subrange(0, j as int) == chars@);
    }
}

fn ascii_char(b: u8) -> (c: char)
    ensures
        c == ascii_of(b),
{
    if (b >= 0x21 && b <= 0x7e) || b >= 0xa1 {
        b as char
    } else {
        '.'
    }
}

proof fn lemma_ascii_run_push(data: Seq<u8>, lo: int, hi: int)
    requires
        0 <= lo <= hi < data.len(),
    ensures
        ascii_run(data, lo, hi + 1) == ascii_run(data, lo, hi).push(ascii_of(data[hi])),
{
    assert(data.subrange(lo, hi + 1) == data.subrange(lo, hi).push(data[hi]));
    assert(ascii_run(data, lo, hi + 1) =~= ascii_run(data, lo, hi).push(ascii_of(data[hi])));
}

/// Renders `data` as a hex dump: a header line of column numbers, then one
/// line per sixteen bytes with the offset, the bytes in hex and, after a tab,
/// the bytes as text (a visible character as itself, anything else as `.`).
pub fn hexdump(data: &[u8]) -> (ret: String)
    ensures
        ret@ == hexdump_spec(data@),
{
    let mut ret = String::new();
    let mut d: usize = 0;
    while d < 6
        invariant
            d <= 6,
            ret@ == Seq::new(d as nat, |i: int| '-'),
        decreases 6 - d,
    {
        ret.push('-');
        proof {
            assert(Seq::new((d + 1) as nat, |i: int| '-') =~= Seq::new(d as nat, |i: int| '-').push('-'));
        }
        d = d + 1;
    }
    proof {
        assert(ret@ =~= header_upto(0));
    }
    let mut i: usize = 0;
    while i < 16
        invariant
            i <= 16,
            ret@ == header_upto(i as nat),
        decreases 16 - i,
    {
        push_hex(&mut ret, i, 2);
        ret.push(' ');
        i = i + 1;
    }

    let mut ascii: Vec<char> = Vec::new();
    let mut k: usize = 0;
    while k < data.len()
        invariant
            k <= data.len(),
            ret@ == header() + dump_body(data@, k as nat),
            ascii@ == ascii_run(data@, last_row_start(k as nat), k as int),
        decreases data.len() - k,
    {
        let ghost before = ret@;
        if k % 16 == 0 {
            ret.push('\t');
            push_chars(&mut ret, &ascii);
            ascii = Vec::new();
            ret.push('\n');
            push_hex(&mut ret, k, 4);
            ret.push(':');
            proof {
                assert(last_row_start(k as nat) == if k >= 16 { k - 16 } else { 0 });
                assert(ret@ =~= before + row_prefix(data@, k as nat));
            }
        } else {
            proof {
                assert(ret@ =~= before + row_prefix(data@, k as nat));
            }
        }
        let ghost mid = ascii@;
        ret.push(' ');
        push_hex(&mut ret, data[k] as usize, 2);
        ascii.push(ascii_char(data[k]));
        proof {
            assert(ret@ =~= before + row_prefix(data@, k as nat) + seq![' '] + hex_padded(
                data@[k as int] as nat,
                2,
            ));
            assert(dump_body(data@, (k + 1) as nat) == dump_body(data@, k as nat) + row_prefix(
                data@,
                k as nat,
            ) + seq![' '] + hex_padded(data@[k as int] as nat, 2));
            assert(last_row_start((k + 1) as nat) == row_start(k as int));
            if k % 16 == 0 {
                assert(mid =~= ascii_run(data@, k as int, k as int));
            } else {
                assert(last_row_start(k as nat) == row_start(k as int));
            }
            lemma_ascii_run_push(data@, row_start(k as int), k as int);
        }
        k = k + 1;
    }

    let ghost before_pad = ret@;
    if data.len() % 16 != 0 {
        let missing = 16 - data.len() % 16;
        let mut p: usize = 0;
        while p < missing
            invariant
                p <= missing,
                ret@ == before_pad + spaces(p as nat),
            decreases missing - p,
        {
            ret.push(' ');
            proof {
                assert(spaces((p + 1) as nat) =~= spaces(p as nat).push(' '));
            }
            p = p + 1;
        }
    }
    proof {
        if data.len() % 16 == 0 {
            assert(ret@ =~= before_pad + padding(data@.len()));
        }
    }
    ret.push('\t');
    push_chars(&mut ret, &ascii);
    proof {
        assert(ret@ =~= hexdump_spec(data@));
    }
    ret
}

/// Every character of `s` is one of Latin-1 (a code point below 256).
pub open spec fn all_latin1(s: Seq<char>) -> bool {
    forall|i: int| 0 <= i < s.len() ==> (#[trigger] s[i] as u32) < 256
}

proof fn lemma_all_latin1_concat(a: Seq<char>, b: Seq<char>)
    requires
        all_latin1(a),
        all_latin1(b),
    ensures
        all_latin1(a + b),
{
    assert forall|i: int| 0 <= i < (a + b).len() implies ((#[trigger] (a + b)[i]) as u32) < 256 by {
        if i < a.len() {
            assert((a + b)[i] == a[i]);
        } else {
            assert((a + b)[i] == b[i - a.len()]);
        }
    }
}

proof fn lemma_hex_padded_latin1(n: nat, width: nat)
    ensures
        all_latin1(hex_padded(n, width)),
    decreases n, width,
{
    if n < 16 && width <= 1 {
    } else {
        lemma_hex_padded_latin1(n / 16, if width > 0 { (width - 1) as nat } else { 0 });
        lemma_all_latin1_concat(
            hex_padded(n / 16, if width > 0 { (width - 1) as nat } else { 0 }),
            seq![hex_digit(n % 16)],
        );
    }
}

proof fn lemma_ascii_run_latin1(data: Seq<u8>, lo: int, hi: int)
    requires
        0 <= lo <= hi <= data.len(),
    ensures
        all_latin1(ascii_run(data, lo, hi)),
{
}

proof fn lemma_header_latin1(k: nat)
    ensures
        all_latin1(header_upto(k)),
    decreases k,
{
    if k > 0 {
        lemma_header_latin1((k - 1) as nat);
        lemma_hex_padded_latin1((k - 1) as nat, 2);
        lemma_all_latin1_concat(header_upto((k - 1) as nat), hex_padded((k - 1) as nat, 2));
        lemma_all_latin1_concat(header_upto((k - 1) as nat) + hex_padded((k - 1) as nat, 2), seq![' ']);
    }
}

proof fn lemma_row_prefix_latin1(data: Seq<u8>, i: nat)
    requires
        i < data.len(),
    ensures
        all_latin1(row_prefix(data, i)),
{
    if i % 16 == 0 {
        let lo: int = if i >= 16 { i - 16 } else { 0 };
        lemma_ascii_run_latin1(data, lo, i as int);
        lemma_hex_padded_latin1(i, 4);
        lemma_all_latin1_concat(seq!['\t'], ascii_run(data, lo, i as int));
        lemma_all_latin1_concat(seq!['\t'] + ascii_run(data, lo, i as int), seq!['\n']);
        lemma_all_latin1_concat(
            seq!['\t'] + ascii_run(data, lo, i as int) + seq!['\n'],
            hex_padded(i, 4),
        );
        lemma_all_latin1_concat(
            seq!['\t'] + ascii_run(data, lo, i as int) + seq!['\n'] + hex_padded(i, 4),
            seq![':'],
        );
    }
}

proof fn lemma_dump_body_latin1(data: Seq<u8>, k: nat)
    requires
        k <= data.len(),
    ensures
        all_latin1(dump_body(data, k)),
    decreases k,
{
    if k > 0 {
        let i = (k - 1) as nat;
        lemma_dump_body_latin1(data, i);
        lemma_row_prefix_latin1(data, i);
        lemma_hex_padded_latin1(data[i as int] as nat, 2);
        lemma_all_latin1_concat(dump_body(data, i), row_prefix(data, i));
        lemma_all_latin1_concat(dump_body(data, i) + row_prefix(data, i), seq![' ']);
        lemma_all_latin1_concat(
            dump_body(data, i) + row_prefix(data, i) + seq![' '],
            hex_padded(data[i as int] as nat, 2),
        );
    }
}

/// A hex dump is Latin-1 text, whatever the bytes dumped: each byte shows
/// as at most one character below 256.
pub proof fn lemma_hexdump_is_latin1(data: Seq<u8>)
    ensures
        all_latin1(hexdump_spec(data)),
{
    let len = data.len();
    lemma_header_latin1(16);
    lemma_dump_body_latin1(data, len);
    lemma_ascii_run_latin1(data, last_row_start(len), len as int);
    lemma_all_latin1_concat(header(), dump_body(data, len));
    lemma_all_latin1_concat(header() + dump_body(data, len), padding(len));
    lemma_all_latin1_concat(header() + dump_body(data, len) + padding(len), seq!['\t']);
    lemma_all_latin1_concat(
        header() + dump_body(data, len) + padding(len) + seq!['\t'],
        ascii_run(data, last_row_start(len), len as int),
    );
}

/// The number of line breaks in `s`.
pub open spec fn newlines(s: Seq<char>) -> nat
    decreases s.len(),
{
    if s.len() == 0 {
        0
    } else {
        newlines(s.drop_last()) + if s.last() == '\n' {
            1nat
        } else {
            0nat
        }
    }
}

proof fn lemma_newlines_concat(a: Seq<char>, b: Seq<char>)
    ensures
        newlines(a + b) == newlines(a) + newlines(b),
    decreases b.len(),
{
    if b.len() > 0 {
        lemma_newlines_concat(a, b.drop_last());
        assert((a + b).drop_last() =~= a + b.drop_last());
    } else {
        assert(a + b =~= a);
    }
}

proof fn lemma_no_newlines(s: Seq<char>)
    requires
        forall|i: int| 0 <= i < s.len() ==> #[trigger] s[i] != '\n',
    ensures
        newlines(s) == 0,
    decreases s.len(),
{
    if s.len() > 0 {
        lemma_no_newlines(s.drop_last());
    }
}

proof fn lemma_hex_padded_no_newlines(n: nat, width: nat)
    ensures
        newlines(hex_padded(n, width)) == 0,
{
    lemma_hex_padded_digits(n, width);
    lemma_no_newlines(hex_padded(n, width));
}

proof fn lemma_hex_padded_digits(n: nat, width: nat)
    ensures
        forall|i: int|
            0 <= i < hex_padded(n, width).len() ==> (#[trigger] hex_padded(n, width)[i] as u32)
                >= 48,
    decreases n, width,
{
    if n < 16 && width <= 1 {
    } else {
        let w: nat = if width > 0 { (width - 1) as nat } else { 0 };
        lemma_hex_padded_digits(n / 16, w);
        let a = hex_padded(n / 16, w);
        let b = seq![hex_digit(n % 16)];
        assert forall|i: int| 0 <= i < (a + b).len() implies ((#[trigger] (a + b)[i]) as u32)
            >= 48 by {
            if i < a.len() {
                assert((a + b)[i] == a[i]);
            } else {
                assert((a + b)[i] == b[i - a.len()]);
            }
        }
    }
}

proof fn lemma_ascii_run_no_newlines(data: Seq<u8>, lo: int, hi: int)
    requires
        0 <= lo <= hi <= data.len(),
    ensures
        newlines(ascii_run(data, lo, hi)) == 0,
{
    lemma_no_newlines(ascii_run(data, lo, hi));
}

proof fn lemma_header_no_newlines(k: nat)
    ensures
        newlines(header_upto(k)) == 0,
    decreases k,
{
    if k == 0 {
        lemma_no_newlines(header_upto(0));
    } else {
        lemma_header_no_newlines((k - 1) as nat);
        lemma_hex_padded_no_newlines((k - 1) as nat, 2);
        lemma_newlines_concat(header_upto((k - 1) as nat), hex_padded((k - 1) as nat, 2));
        lemma_newlines_concat(header_upto((k - 1) as nat) + hex_padded((k - 1) as nat, 2), seq![' ']);
        lemma_no_newlines(seq![' ']);
    }
}

proof fn lemma_row_prefix_newlines(data: Seq<u8>, i: nat)
    requires
        i < data.len(),
    ensures
        newlines(row_prefix(data, i)) == if i % 16 == 0 {
            1nat
        } else {
            0nat
        },
{
    if i % 16 == 0 {
        let lo: int = if i >= 16 { i - 16 } else { 0 };
        let run = ascii_run(data, lo, i as int);
        lemma_ascii_run_no_newlines(data, lo, i as int);
        lemma_hex_padded_no_newlines(i, 4);
        lemma_no_newlines(seq!['\t']);
        lemma_no_newlines(seq![':']);
        assert(newlines(seq!['\n']) == 1) by {
            assert(seq!['\n'].drop_last() =~= Seq::<char>::empty());
            assert(newlines(seq!['\n'].drop_last()) == 0);
            assert(seq!['\n'].last() == '\n');
        }
        lemma_newlines_concat(seq!['\t'], run);
        lemma_newlines_concat(seq!['\t'] + run, seq!['\n']);
        lemma_newlines_concat(seq!['\t'] + run + seq!['\n'], hex_padded(i, 4));
        lemma_newlines_concat(seq!['\t'] + run + seq!['\n'] + hex_padded(i, 4), seq![':']);
    } else {
        lemma_no_newlines(row_prefix(data, i));
    }
}

proof fn lemma_dump_body_newlines(data: Seq<u8>, k: nat)
    requires
        k <= data.len(),
    ensures
        newlines(dump_body(data, k)) == (k + 15) / 16,
    decreases k,
{
    if k > 0 {
        let i = (k - 1) as nat;
        lemma_dump_body_newlines(data, i);
        lemma_row_prefix_newlines(data, i);
        lemma_hex_padded_no_newlines(data[i as int] as nat, 2);
        lemma_no_newlines(seq![' ']);
        lemma_newlines_concat(dump_body(data, i), row_prefix(data, i));
        lemma_newlines_concat(dump_body(data, i) + row_prefix(data, i), seq![' ']);
        lemma_newlines_concat(
            dump_body(data, i) + row_prefix(data, i) + seq![' '],
            hex_padded(data[i as int] as nat, 2),
        );
    }
}

/// A hex dump has one line per started row of sixteen bytes, after its
/// header line: it holds `ceil(len / 16)` line breaks.
pub proof fn lemma_hexdump_rows(data: Seq<u8>)
    ensures
        newlines(hexdump_spec(data)) == (data.len() + 15) / 16,
{
    let len = data.len();
    lemma_header_no_newlines(16);
    lemma_dump_body_newlines(data, len);
    lemma_ascii_run_no_newlines(data, last_row_start(len), len as int);
    lemma_no_newlines(padding(len));
    lemma_no_newlines(seq!['\t']);
    lemma_newlines_concat(header(), dump_body(data, len));
    lemma_newlines_concat(header() + dump_body(data, len), padding(len));
    lemma_newlines_concat(header() + dump_body(data, len) + padding(len), seq!['\t']);
    lemma_newlines_concat(
        header() + dump_body(data, len) + padding(len) + seq!['\t'],
        ascii_run(data, last_row_start(len), len as int),
    );
}

} // verus!
