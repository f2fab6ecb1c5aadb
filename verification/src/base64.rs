//! Base64, standard alphabet, padded.
use vstd::prelude::*;

verus! {

/// The alphabet, by value.
pub open spec fn alphabet() -> Seq<char> {
    "ABCDEFGHIJKLMNOPQRSTUVWXYZabcdefghijklmnopqrstuvwxyz0123456789+/"@
}

/// The character of a six-bit value.
pub open spec fn sextet_char(n: nat) -> char {
    alphabet()[n as int]
}

/// The value of a character of the alphabet.
#[verifier::opaque]
pub open spec fn sextet_value(c: char) -> nat {
    if 'A' <= c <= 'Z' {
        (c as nat - 'A' as nat) as nat
    } else if 'a' <= c <= 'z' {
        (c as nat - 'a' as nat + 26) as nat
    } else if '0' <= c <= '9' {
        (c as nat - '0' as nat + 52) as nat
    } else if c == '+' {
        62
    } else {
        63
    }
}

/// The number that up to three bytes form, missing ones zero.
#[verifier::opaque]
pub open spec fn group_value(data: Seq<u8>) -> nat {
    (data[0] as nat) * 0x10000 + (if data.len() > 1 {
        data[1] as nat
    } else {
        0
    }) * 0x100 + (if data.len() > 2 {
        data[2] as nat
    } else {
        0
    })
}

/// The four characters of a group of one to three bytes.
#[verifier::opaque]
pub open spec fn group_chars(data: Seq<u8>) -> Seq<char> {
    let n = group_value(data);
    seq![
        sextet_char(n / 0x40000),
        sextet_char(n / 0x1000 % 64),
        if data.len() > 1 {
            sextet_char(n / 64 % 64)
        } else {
            '='
        },
        if data.len() > 2 {
            sextet_char(n % 64)
        } else {
            '='
        },
    ]
}

/// The encoding: one group per three bytes, the last one padded.
pub open spec fn encoded(data: Seq<u8>) -> Seq<char>
    decreases data.len(),
{
    if data.len() == 0 {
        Seq::empty()
    } else if data.len() <= 3 {
        group_chars(data)
    } else {
        group_chars(data.subrange(0, 3)) + encoded(data.subrange(3, data.len() as int))
    }
}

/// The bytes of four characters.
#[verifier::opaque]
pub open spec fn group_bytes(c: Seq<char>) -> Seq<u8> {
    let v0 = sextet_value(c[0]);
    let v1 = sextet_value(c[1]);
    let v2 = sextet_value(c[2]);
    let v3 = sextet_value(c[3]);
    let b0 = (v0 * 4 + v1 / 16) as u8;
    let b1 = (v1 % 16 * 16 + v2 / 4) as u8;
    let b2 = (v2 % 4 * 64 + v3) as u8;
    if c[2] == '=' {
        seq![b0]
    } else if c[3] == '=' {
        seq![b0, b1]
    } else {
        seq![b0, b1, b2]
    }
}

/// The decoding of a padded text.
pub open spec fn decoded(s: Seq<char>) -> Seq<u8>
    decreases s.len(),
{
    if s.len() < 4 {
        Seq::empty()
    } else {
        group_bytes(s.subrange(0, 4)) + decoded(s.subrange(4, s.len() as int))
    }
}

/// The first `k` characters of the alphabet have their place as value, and
/// none of them pads.
spec fn table_holds(k: nat) -> bool
    decreases k,
{
    k == 0 || {
        &&& table_holds((k - 1) as nat)
        &&& sextet_value(alphabet()[k - 1]) == k - 1
        &&& alphabet()[k - 1] != '='
    }
}

proof fn table_entry(k: nat, n: nat)
    requires
        n < k,
        table_holds(k),
    ensures
        sextet_value(sextet_char(n)) == n,
        sextet_char(n) != '=',
    decreases k,
{
    if n < k - 1 {
        table_entry((k - 1) as nat, n);
    }
}

proof fn alphabet_reads_back(n: nat)
    requires
        n < 64,
    ensures
        alphabet().len() == 64,
        sextet_value(sextet_char(n)) == n,
        sextet_char(n) != '=',
{
    reveal_strlit("ABCDEFGHIJKLMNOPQRSTUVWXYZabcdefghijklmnopqrstuvwxyz0123456789+/");
    assert(table_holds(64)) by {
        reveal(sextet_value);
        reveal_with_fuel(table_holds, 65);
    }
    table_entry(64, n);
}

fn sextet(n: u32) -> (r: &'static str)
    requires
        n < 64,
    ensures
        r@ == seq![sextet_char(n as nat)],
{
    proof {
        alphabet_reads_back(n as nat);
    }
    let r = "ABCDEFGHIJKLMNOPQRSTUVWXYZabcdefghijklmnopqrstuvwxyz0123456789+/".substring_char(
        n as usize,
        n as usize + 1,
    );
    assert(r@ =~= seq![sextet_char(n as nat)]);
    r
}

/// The bytes as base64 text.
pub fn base64_encode(data: &[u8]) -> (r: String)
    ensures
        r@ == encoded(data@),
{
    let mut out = String::new();
    let mut i: usize = 0;
    let ghost all = data@;
    assert(all.subrange(0, all.len() as int) =~= all);
    while i < data.len()
        invariant
            i <= data.len(),
            all == data@,
            out@ + encoded(all.subrange(i as int, all.len() as int)) == encoded(all),
        decreases data.len() - i,
    {
        let left: usize = data.len() - i;
        let b0: u32 = data[i] as u32;
        let b1: u32 = if left > 1 {
            data[i + 1] as u32
        } else {
            0
        };
        let b2: u32 = if left > 2 {
            data[i + 2] as u32
        } else {
            0
        };
        let n: u32 = b0 * 0x10000 + b1 * 0x100 + b2;
        let ghost rest = all.subrange(i as int, all.len() as int);
        let ghost group = if left <= 3 {
            rest
        } else {
            rest.subrange(0, 3)
        };
        proof {
            reveal(group_value);
            reveal(group_chars);
            assert(n == group_value(group));
            reveal_strlit("=");
        }
        let ghost before = out@;
        out = out.concat(sextet(n / 0x40000)).concat(sextet(n / 0x1000 % 64));
        if left > 1 {
            out = out.concat(sextet(n / 64 % 64));
        } else {
            out = out.concat("=");
        }
        if left > 2 {
            out = out.concat(sextet(n % 64));
        } else {
            out = out.concat("=");
        }
        proof {
            assert(out@ =~= before + group_chars(group));
        }
        if left <= 3 {
            i = data.len();
            proof {
                assert(all.subrange(i as int, all.len() as int) =~= Seq::empty());
                assert(out@ + Seq::<char>::empty() =~= out@);
            }
        } else {
            i = i + 3;
            proof {
                let next = all.subrange(i as int, all.len() as int);
                assert(rest.subrange(3, rest.len() as int) =~= next);
                assert(before + (group_chars(group) + encoded(next)) =~= out@ + encoded(next));
            }
        }
    }
    proof {
        assert(all.subrange(i as int, all.len() as int) =~= Seq::empty());
        assert(out@ + Seq::<char>::empty() =~= out@);
    }
    out
}

proof fn sextets_of_bytes(b0: nat, b1: nat, b2: nat)
    requires
        b0 < 256,
        b1 < 256,
        b2 < 256,
    ensures
        ({
            let n = b0 * 0x10000 + b1 * 0x100 + b2;
            &&& n / 0x40000 == b0 / 4
            &&& n / 0x1000 % 64 == b0 % 4 * 16 + b1 / 16
            &&& n / 64 % 64 == b1 % 16 * 4 + b2 / 64
            &&& n % 64 == b2 % 64
        }),
{
    let n = b0 * 0x10000 + b1 * 0x100 + b2;
    assert(n / 0x40000 == b0 / 4);
    assert(n / 0x1000 == b0 * 16 + b1 / 16);
    assert(n / 64 == b0 * 1024 + b1 * 4 + b2 / 64);
}

proof fn bytes_of_sextets(b0: nat, b1: nat, b2: nat)
    requires
        b0 < 256,
        b1 < 256,
        b2 < 256,
    ensures
        (b0 / 4) * 4 + (b0 % 4 * 16 + b1 / 16) / 16 == b0,
        (b0 % 4 * 16 + b1 / 16) % 16 * 16 + (b1 % 16 * 4 + b2 / 64) / 4 == b1,
        (b1 % 16 * 4 + b2 / 64) % 4 * 64 + b2 % 64 == b2,
{
}

proof fn group_reads_back(data: Seq<u8>)
    requires
        1 <= data.len() <= 3,
    ensures
        group_bytes(group_chars(data)) == data,
        group_chars(data).len() == 4,
{
    let n = group_value(data);
    let b0 = data[0] as nat;
    let b1: nat = if data.len() > 1 {
        data[1] as nat
    } else {
        0
    };
    let b2: nat = if data.len() > 2 {
        data[2] as nat
    } else {
        0
    };
    let c = group_chars(data);
    reveal(group_value);
    reveal(group_chars);
    reveal(group_bytes);
    sextets_of_bytes(b0, b1, b2);
    bytes_of_sextets(b0, b1, b2);
    let v0 = n / 0x40000;
    let v1 = n / 0x1000 % 64;
    let v2 = n / 64 % 64;
    let v3 = n % 64;
    assert(v0 < 64 && v1 < 64 && v2 < 64 && v3 < 64);
    alphabet_reads_back(v0);
    alphabet_reads_back(v1);
    alphabet_reads_back(v2);
    alphabet_reads_back(v3);
    assert(c.len() == 4);
    assert(sextet_value(c[0]) == v0);
    assert(sextet_value(c[1]) == v1);
    let bytes = group_bytes(c);
    if data.len() == 1 {
        assert(c[2] == '=');
        assert(v0 * 4 + v1 / 16 == b0);
        assert(bytes.len() == 1 && bytes[0] == data[0]);
    } else if data.len() == 2 {
        assert(c[2] != '=' && c[3] == '=');
        assert(sextet_value(c[2]) == v2);
        assert(v0 * 4 + v1 / 16 == b0);
        assert(v1 % 16 * 16 + v2 / 4 == b1);
        assert(bytes.len() == 2 && bytes[0] == data[0] && bytes[1] == data[1]);
    } else {
        assert(c[2] != '=' && c[3] != '=');
        assert(sextet_value(c[2]) == v2);
        assert(sextet_value(c[3]) == v3);
        assert(v0 * 4 + v1 / 16 == b0);
        assert(v1 % 16 * 16 + v2 / 4 == b1);
        assert(v2 % 4 * 64 + v3 == b2);
        assert(bytes.len() == 3 && bytes[0] == data[0] && bytes[1] == data[1] && bytes[2]
            == data[2]);
    }
    assert(bytes =~= data);
}

/// Decoding what was encoded gives the bytes back, for every byte string.
pub proof fn decoding_undoes_encoding(data: Seq<u8>)
    ensures
        decoded(encoded(data)) == data,
        encoded(data).len() == 4 * ((data.len() + 2) / 3),
    decreases data.len(),
{
    if data.len() == 0 {
        assert(decoded(encoded(data)) =~= data);
    } else if data.len() <= 3 {
        group_reads_back(data);
        let s = encoded(data);
        assert(s.subrange(0, 4) =~= s);
        assert(decoded(s.subrange(4, 4)) =~= Seq::empty());
        assert(decoded(s) =~= data);
    } else {
        let head = data.subrange(0, 3);
        let tail = data.subrange(3, data.len() as int);
        group_reads_back(head);
        decoding_undoes_encoding(tail);
        let s = encoded(data);
        assert(s.subrange(0, 4) =~= group_chars(head));
        assert(s.subrange(4, s.len() as int) =~= encoded(tail));
        assert(head + tail =~= data);
    }
}

/// Whole groups followed by more bytes encode as the two encodings, one after
/// the other.
pub proof fn whole_groups_encode_apart(a: Seq<u8>, b: Seq<u8>)
    requires
        a.len() % 3 == 0,
    ensures
        encoded(a + b) == encoded(a) + encoded(b),
    decreases a.len(),
{
    if a.len() == 0 {
        assert(a + b =~= b);
        assert(encoded(a) + encoded(b) =~= encoded(b));
    } else {
        let head = a.subrange(0, 3);
        let rest = a.subrange(3, a.len() as int);
        whole_groups_encode_apart(rest, b);
        if rest.len() == 0 {
            assert(head =~= a);
            assert(encoded(rest) =~= Seq::empty());
        }
        assert(encoded(a) =~= group_chars(head) + encoded(rest));
        if rest.len() + b.len() == 0 {
            assert(a + b =~= a);
            assert(encoded(a) + encoded(b) =~= encoded(a));
        } else {
            assert((a + b).subrange(0, 3) =~= head);
            assert((a + b).subrange(3, (a + b).len() as int) =~= rest + b);
            assert(encoded(a + b) =~= group_chars(head) + (encoded(rest) + encoded(b)));
            assert(encoded(a + b) =~= encoded(a) + encoded(b));
        }
    }
}

/// How many characters pad the encoding of `n` bytes.
pub open spec fn padding(n: nat) -> nat {
    ((3 - n % 3) % 3) as nat
}

proof fn group_padding(data: Seq<u8>)
    requires
        1 <= data.len() <= 3,
    ensures
        group_chars(data).len() == 4,
        forall|i: int|
            0 <= i < 4 ==> ((#[trigger] group_chars(data)[i]) == '=' <==> i >= 1 + data.len()),
{
    reveal(group_value);
    reveal(group_chars);
    let n = group_value(data);
    assert(n < 0x100_0000);
    assert(n / 0x40000 < 64);
    alphabet_reads_back(n / 0x40000);
    alphabet_reads_back(n / 0x1000 % 64);
    alphabet_reads_back(n / 64 % 64);
    alphabet_reads_back(n % 64);
}

/// The encoding is four characters per group of three bytes, the last one
/// begun or whole; it is padded to that length with `=`, at its end and
/// nowhere else.
pub proof fn padding_stands_at_the_end(data: Seq<u8>)
    ensures
        encoded(data).len() == 4 * ((data.len() + 2) / 3),
        forall|i: int|
            0 <= i < encoded(data).len() ==> ((#[trigger] encoded(data)[i]) == '=' <==> i
                >= encoded(data).len() - padding(data.len())),
    decreases data.len(),
{
    if data.len() == 0 {
    } else if data.len() <= 3 {
        group_padding(data);
    } else {
        let head = data.subrange(0, 3);
        let tail = data.subrange(3, data.len() as int);
        group_padding(head);
        padding_stands_at_the_end(tail);
        assert(padding(tail.len()) == padding(data.len()));
        let s = encoded(data);
        assert forall|i: int| 0 <= i < s.len() implies ((#[trigger] s[i]) == '=' <==> i >= s.len()
            - padding(data.len())) by {
            if i < 4 {
                assert(s[i] == group_chars(head)[i]);
            } else {
                assert(s[i] == encoded(tail)[i - 4]);
            }
        }
    }
}

} // verus!
