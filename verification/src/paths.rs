use vstd::prelude::*;
use crate::text::push_char;

verus! {

/// The lower-case hexadecimal digit for `d < 16`.
pub open spec fn hex_digit(d: int) -> char {
    if d < 10 {
        (d + 48) as char
    } else {
        (d + 87) as char
    }
}

/// The lower-case hexadecimal representation of `n`, without leading zeros ("0" for zero).
pub open spec fn to_hex(n: nat) -> Seq<char>
    decreases n,
{
    if n < 16 {
        seq![hex_digit(n as int)]
    } else {
        to_hex(n / 16).push(hex_digit((n % 16) as int))
    }
}

/// `s` left-padded with '0' to at least `width` characters.
pub open spec fn zero_pad(s: Seq<char>, width: nat) -> Seq<char> {
    if s.len() >= width {
        s
    } else {
        Seq::new((width - s.len()) as nat, |i: int| '0') + s
    }
}

/// What `format!("{:0width$x}", n)` writes.
pub open spec fn hex_padded(n: nat, width: nat) -> Seq<char> {
    zero_pad(to_hex(n), width)
}

fn hex_digit_exec(d: u64) -> (c: char)
    requires
        d < 16,
    ensures
        c == hex_digit(d as int),
{
    if d < 10 {
        crate::text::char_of((d + 48) as u32)
    } else {
        crate::text::char_of((d + 87) as u32)
    }
}

/// Writes `n` in lower-case hexadecimal, zero-padded to `width` digits.
pub fn format_hex(n: u64, width: usize) -> (r: String)
    ensures
        r@ == hex_padded(n as nat, width as nat),
{
    // digits, least significant first
    let mut rev: Vec<char> = Vec::new();
    let mut m: u64 = n;
    let ghost mut acc: Seq<char> = Seq::empty();
    while m >= 16
        invariant
            to_hex(n as nat) == to_hex(m as nat) + acc,
            rev@.len() == acc.len(),
            forall|j: int| 0 <= j < acc.len() ==> #[trigger] rev@[j] == acc[acc.len() - 1 - j],
        decreases m,
    {
        let c = hex_digit_exec(m % 16);
        rev.push(c);
        proof {
            assert(to_hex(m as nat) == to_hex((m / 16) as nat).push(c));
            assert(to_hex((m / 16) as nat) + (seq![c] + acc) =~= to_hex(m as nat) + acc);
            acc = seq![c] + acc;
        }
        m = m / 16;
    }
    let c = hex_digit_exec(m);
    rev.push(c);
    proof {
        assert(to_hex(m as nat) == seq![c]);
        acc = seq![c] + acc;
    }
    assert(acc == to_hex(n as nat));
    let mut out = String::new();
    let len = rev.len();
    let mut k: usize = len;
    while k < width
        invariant
            len <= k <= width || (k == len && len >= width),
            out@ == Seq::new((k - len) as nat, |i: int| '0'),
        decreases width - k,
    {
        push_char(&mut out, '0');
        proof {
            assert(out@ =~= Seq::new((k + 1 - len) as nat, |i: int| '0'));
        }
        k = k + 1;
    }
    let ghost pad = out@;
    let mut i: usize = len;
    while i > 0
        invariant
            i <= len,
            len == rev@.len(),
            len == acc.len(),
            forall|j: int| 0 <= j < acc.len() ==> #[trigger] rev@[j] == acc[acc.len() - 1 - j],
            out@ == pad + acc.subrange(0, (len - i) as int),
        decreases i,
    {
        i = i - 1;
        push_char(&mut out, rev[i]);
        proof {
            assert(out@ =~= pad + acc.subrange(0, (len - i) as int));
        }
    }
    assert(acc.subrange(0, len as int) =~= acc);
    assert(out@ =~= hex_padded(n as nat, width as nat));
    out
}

} // verus!

verus! {

/// The last digit written for `n` is `n`'s lowest hexadecimal digit, and what comes
/// before it is the padded writing of `n / 16` one column narrower.
proof fn lemma_hex_padded_split(n: nat, width: nat)
    requires
        width >= 2,
    ensures
        hex_padded(n, width).len() >= width,
        hex_padded(n, width).last() == hex_digit((n % 16) as int),
        hex_padded(n, width).drop_last() == hex_padded(n / 16, (width - 1) as nat),
{
    reveal_with_fuel(to_hex, 2);
    let t = to_hex(n);
    if n < 16 {
        assert(to_hex(n / 16) == seq![hex_digit(0)]);
        assert(hex_padded(n, width).drop_last() =~= hex_padded(n / 16, (width - 1) as nat));
    } else {
        let p = to_hex(n / 16);
        assert(t == p.push(hex_digit((n % 16) as int)));
        if t.len() >= width {
            assert(hex_padded(n, width).drop_last() =~= p);
        } else {
            assert(hex_padded(n, width).drop_last() =~= hex_padded(n / 16, (width - 1) as nat));
        }
    }
}

/// The shard directory of an id is the last two hexadecimal digits of its file name:
/// `get_sharded_path` files `00001234.jpg` under `34`.
pub proof fn lemma_shard_is_file_name_suffix(id: u64)
    ensures
        hex_padded(id as nat, 8).len() >= 8,
        hex_padded((id % 256) as nat, 2) == hex_padded(id as nat, 8).subrange(
            hex_padded(id as nat, 8).len() - 2,
            hex_padded(id as nat, 8).len() as int,
        ),
{
    let n = id as nat;
    let s = hex_padded(n, 8);
    lemma_hex_padded_split(n, 8);
    lemma_hex_padded_split(n / 16, 7);
    let m = (id % 256) as nat;
    lemma_hex_padded_split(m, 2);
    assert(m % 16 == n % 16) by (nonlinear_arith)
        requires
            m == n % 256,
    ;
    assert(m / 16 == (n / 16) % 16) by (nonlinear_arith)
        requires
            m == n % 256,
    ;
    assert(m / 16 < 16);
    reveal_with_fuel(to_hex, 1);
    let q = hex_padded(m, 2);
    assert(hex_padded(m / 16, 1) == seq![hex_digit(((m / 16) % 16) as int)]);
    assert(q.drop_last() =~= seq![hex_digit(((n / 16) % 16) as int)]);
    assert(q.len() == 2);
    assert(q =~= s.subrange(s.len() - 2, s.len() as int));
}

} // verus!

verus! {

#[verifier::external_type_specification]
#[verifier::external_body]
pub struct ExPathBuf(std::path::PathBuf);

/// The name of the shard directory of `id`: its lowest byte as two hex digits.
pub fn shard_dir_name(id: u64) -> (r: String)
    ensures
        r@ == hex_padded((id % 256) as nat, 2),
{
    let low: u64 = id & 0xFF;
    assert(id & 0xFF == id % 256) by (bit_vector);
    format_hex(low, 2)
}

/// The file name of `id` inside its shard: at least eight hex digits, then `ext`.
pub fn shard_file_name(id: u64, ext: &str) -> (r: String)
    ensures
        r@ == hex_padded(id as nat, 8) + ext@,
{
    let mut name = format_hex(id, 8);
    name.append(ext);
    name
}

/// Where a thumbnail lives: under `base`, in the directory `dir`, as the file `file`.
pub struct ShardedPath {
    pub base: std::path::PathBuf,
    pub dir: String,
    pub file: String,
}

/// The path of the file of `id` with extension `ext` under `base_dir`:
/// `base_dir/<lowest byte of id, 2 hex digits>/<id, at least 8 hex digits><ext>`.
pub fn get_sharded_path(base_dir: std::path::PathBuf, id: u64, ext: &str) -> (r: ShardedPath)
    ensures
        r.base == base_dir,
        r.dir@ == hex_padded((id % 256) as nat, 2),
        r.file@ == hex_padded(id as nat, 8) + ext@,
{
    let dir = shard_dir_name(id);
    let file = shard_file_name(id, ext);
    ShardedPath { base: base_dir, dir, file }
}

} // verus!

verus! {

/// The value of a lower-case hexadecimal digit.
pub open spec fn hex_value(c: char) -> int {
    if c as int <= 57 {
        c as int - 48
    } else {
        c as int - 87
    }
}

/// The number a sequence of lower-case hexadecimal digits writes.
pub open spec fn from_hex(s: Seq<char>) -> nat
    decreases s.len(),
{
    if s.len() == 0 {
        0
    } else {
        (from_hex(s.drop_last()) * 16 + hex_value(s.last())) as nat
    }
}

proof fn lemma_from_to_hex(n: nat)
    ensures
        from_hex(to_hex(n)) == n,
    decreases n,
{
    let d = n % 16;
    assert(hex_value(hex_digit(d as int)) == d) by {
        if d < 10 {
            assert((d + 48) as char as int == d + 48);
        } else {
            assert((d + 87) as char as int == d + 87);
        }
    }
    let t = to_hex(n);
    if n < 16 {
        assert(t == seq![hex_digit(n as int)]);
        assert(t.drop_last() =~= Seq::<char>::empty());
        assert(from_hex(t.drop_last()) == 0);
        assert(t.last() == hex_digit(d as int));
        assert(from_hex(t) == from_hex(t.drop_last()) * 16 + hex_value(t.last()));
    } else {
        lemma_from_to_hex(n / 16);
        assert(t == to_hex(n / 16).push(hex_digit(d as int)));
        assert(t.drop_last() =~= to_hex(n / 16));
        assert(t.last() == hex_digit(d as int));
        assert(n == (n / 16) * 16 + d);
        assert(from_hex(t) == from_hex(t.drop_last()) * 16 + hex_value(t.last()));
    }
}

proof fn lemma_from_hex_zero_prefix(k: nat, s: Seq<char>)
    ensures
        from_hex(Seq::new(k, |i: int| '0') + s) == from_hex(s),
    decreases s.len(), k,
{
    let z = Seq::new(k, |i: int| '0');
    if s.len() == 0 {
        assert(z + s =~= z);
        if k > 0 {
            let z1 = Seq::new((k - 1) as nat, |i: int| '0');
            assert(z.drop_last() =~= z1);
            lemma_from_hex_zero_prefix((k - 1) as nat, s);
            assert(z1 + s =~= z1);
            assert(hex_value('0') == 0);
        }
    } else {
        lemma_from_hex_zero_prefix(k, s.drop_last());
        assert((z + s).drop_last() =~= z + s.drop_last());
    }
}

/// The padded hexadecimal writing of a number reads back as that number.
pub proof fn lemma_hex_padded_reads_back(n: nat, width: nat)
    ensures
        from_hex(hex_padded(n, width)) == n,
{
    lemma_from_to_hex(n);
    let t = to_hex(n);
    if t.len() < width {
        lemma_from_hex_zero_prefix((width - t.len()) as nat, t);
    }
}

/// Distinct ids get distinct thumbnail file names, so no two media share a thumbnail.
pub proof fn lemma_file_names_distinct(a: u64, b: u64, ext: Seq<char>)
    requires
        a != b,
    ensures
        hex_padded(a as nat, 8) + ext != hex_padded(b as nat, 8) + ext,
{
    let sa = hex_padded(a as nat, 8);
    let sb = hex_padded(b as nat, 8);
    if sa + ext == sb + ext {
        assert((sa + ext).len() == sa.len() + ext.len());
        assert((sb + ext).len() == sb.len() + ext.len());
        assert(sa.len() == sb.len());
        assert(sa =~= (sa + ext).subrange(0, sa.len() as int));
        assert(sb =~= (sb + ext).subrange(0, sb.len() as int));
        lemma_hex_padded_reads_back(a as nat, 8);
        lemma_hex_padded_reads_back(b as nat, 8);
    }
}

} // verus!
