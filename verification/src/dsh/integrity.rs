//! Integrity of an installed dsh: the entry script must exist, and the
//! tarball's SHA-512 must match the registry's `dist.integrity` field
//! (`sha512-<base64>`). Only the dsh package itself is checked; npm checks
//! its dependencies.
use sha2::Digest;
use vstd::prelude::*;

use crate::error::{Fault, LauncherError};
use crate::text::{chars_of, dec, dec_exec, extend, find, find_char, join_path, join_path_exec, slice_of, string_of};

verus! {

broadcast use vstd::string::group_string_axioms;

/// The entry script, relative to `node_modules/@deepseek-ai/dsh/`.
pub const DSH_ENTRY_REL: &'static str = "lib/bin.js";

// ---------------------------------------------------------------------------
// Base64
// ---------------------------------------------------------------------------

/// The value of a standard base64 digit, or -1.
pub open spec fn b64_index(c: char) -> int {
    let n = c as int;
    if 65 <= n <= 90 {
        n - 65
    } else if 97 <= n <= 122 {
        n - 71
    } else if 48 <= n <= 57 {
        n + 4
    } else if n == 43 {
        62
    } else if n == 47 {
        63
    } else {
        -1
    }
}

/// The digits before the first `=` (padding and what follows are ignored).
pub open spec fn b64_body(s: Seq<char>) -> Seq<char> {
    match find(s, seq!['=']) {
        Some(k) => s.take(k),
        None => s,
    }
}

/// The first character that is not a base64 digit.
pub open spec fn first_bad(s: Seq<char>) -> Option<char>
    decreases s.len(),
{
    if s.len() == 0 {
        None
    } else if b64_index(s[0]) < 0 {
        Some(s[0])
    } else {
        first_bad(s.drop_first())
    }
}

/// The digits' values.
pub open spec fn sextets(s: Seq<char>) -> Seq<u8> {
    s.map_values(|c: char| b64_index(c) as u8)
}

/// The bytes that base64 digit values stand for: three bytes per four
/// digits, and one or two bytes for a last group of two or three digits.
pub open spec fn decode_sextets(x: Seq<u8>) -> Seq<u8>
    decreases x.len(),
{
    if x.len() < 2 {
        Seq::empty()
    } else if x.len() == 2 {
        seq![(x[0] * 4 + x[1] / 16) as u8]
    } else if x.len() == 3 {
        seq![(x[0] * 4 + x[1] / 16) as u8, ((x[1] % 16) * 16 + x[2] / 4) as u8]
    } else {
        seq![
            (x[0] * 4 + x[1] / 16) as u8,
            ((x[1] % 16) * 16 + x[2] / 4) as u8,
            ((x[2] % 4) * 64 + x[3]) as u8,
        ] + decode_sextets(x.skip(4))
    }
}

/// Standard base64 with optional padding: the bytes, or the first
/// character that is not a digit.
pub open spec fn b64_decode_spec(s: Seq<char>) -> Result<Seq<u8>, char> {
    match first_bad(b64_body(s)) {
        Some(c) => Err(c),
        None => Ok(decode_sextets(sextets(b64_body(s)))),
    }
}

/// The first byte of `c` in UTF-8.
pub open spec fn lead_byte(c: char) -> u8 {
    let n = c as int;
    if n < 0x80 {
        n as u8
    } else if n < 0x800 {
        (0xC0 + n / 64) as u8
    } else if n < 0x10000 {
        (0xE0 + n / 4096) as u8
    } else {
        (0xF0 + n / 262144) as u8
    }
}

fn b64_index_exec(c: char) -> (r: i32)
    ensures
        r == b64_index(c),
{
    let n = c as u32;
    if 65 <= n && n <= 90 {
        (n - 65) as i32
    } else if 97 <= n && n <= 122 {
        (n - 71) as i32
    } else if 48 <= n && n <= 57 {
        (n + 4) as i32
    } else if n == 43 {
        62
    } else if n == 47 {
        63
    } else {
        -1
    }
}

fn lead_byte_exec(c: char) -> (r: u8)
    ensures
        r == lead_byte(c),
{
    let n = c as u32;
    if n < 0x80 {
        n as u8
    } else if n < 0x800 {
        (0xC0 + n / 64) as u8
    } else if n < 0x10000 {
        (0xE0 + n / 4096) as u8
    } else {
        (0xF0 + n / 262144) as u8
    }
}

proof fn lemma_decode_concat(a: Seq<u8>, b: Seq<u8>)
    requires
        a.len() % 4 == 0,
    ensures
        decode_sextets(a + b) == decode_sextets(a) + decode_sextets(b),
    decreases a.len(),
{
    if a.len() == 0 {
        assert(a + b =~= b);
        assert(decode_sextets(a) =~= Seq::<u8>::empty());
        assert(decode_sextets(a) + decode_sextets(b) =~= decode_sextets(b));
    } else {
        assert((a + b).skip(4) =~= a.skip(4) + b);
        lemma_decode_concat(a.skip(4), b);
        assert((a + b)[0] == a[0] && (a + b)[1] == a[1] && (a + b)[2] == a[2] && (a + b)[3] == a[3]);
        assert(decode_sextets(a + b) =~= decode_sextets(a) + decode_sextets(b));
    }
}

/// The digit values of `body`, or the first character that is not a digit.
fn sextets_of(body: &Vec<char>) -> (r: Result<Vec<u8>, char>)
    ensures
        match first_bad(body@) {
            Some(c) => r == Err::<Vec<u8>, char>(c),
            None => r matches Ok(x) && x@ == sextets(body@),
        },
{
    let mut x: Vec<u8> = Vec::new();
    let mut i: usize = 0;
    assert(body@.skip(0) =~= body@);
    while i < body.len()
        invariant
            i <= body.len(),
            first_bad(body@) == first_bad(body@.skip(i as int)),
            x@ == sextets(body@.take(i as int)),
        decreases body.len() - i,
    {
        let v = b64_index_exec(body[i]);
        assert(body@.skip(i as int)[0] == body@[i as int]);
        if v < 0 {
            return Err(body[i]);
        }
        x.push(v as u8);
        assert(body@.skip(i as int).drop_first() =~= body@.skip(i + 1));
        assert(x@ =~= sextets(body@.take(i + 1)));
        i += 1;
    }
    assert(body@.take(i as int) =~= body@);
    assert(body@.skip(i as int) =~= Seq::<char>::empty());
    Ok(x)
}

/// The bytes for digit values.
fn decode_sextets_exec(x: &Vec<u8>) -> (r: Vec<u8>)
    requires
        forall|k: int| 0 <= k < x.len() ==> x@[k] < 64,
    ensures
        r@ == decode_sextets(x@),
{
    let mut out: Vec<u8> = Vec::new();
    let mut i: usize = 0;
    while x.len() - i >= 4
        invariant
            i <= x.len(),
            i % 4 == 0,
            out@ == decode_sextets(x@.take(i as int)),
            forall|k: int| 0 <= k < x.len() ==> x@[k] < 64,
        decreases x.len() - i,
    {
        let a = x[i];
        let b = x[i + 1];
        let c = x[i + 2];
        let d = x[i + 3];
        out.push(a * 4 + b / 16);
        out.push((b % 16) * 16 + c / 4);
        out.push((c % 4) * 64 + d);
        proof {
            let g = x@.subrange(i as int, i + 4);
            assert(x@.take(i + 4) =~= x@.take(i as int) + g);
            lemma_decode_concat(x@.take(i as int), g);
            assert(g.skip(4) =~= Seq::<u8>::empty());
            assert(g.len() == 4 && g[0] == a && g[1] == b && g[2] == c && g[3] == d);
            assert(decode_sextets(g.skip(4)) =~= Seq::<u8>::empty());
            assert(decode_sextets(g) =~= seq![
                (a * 4 + b / 16) as u8,
                ((b % 16) * 16 + c / 4) as u8,
                ((c % 4) * 64 + d) as u8,
            ]);
            assert(out@ =~= decode_sextets(x@.take(i + 4)));
        }
        i += 4;
    }
    let rest = x.len() - i;
    let ghost t = x@.skip(i as int);
    if rest >= 2 {
        let a = x[i];
        let b = x[i + 1];
        out.push(a * 4 + b / 16);
        if rest == 3 {
            let c = x[i + 2];
            out.push((b % 16) * 16 + c / 4);
        }
    }
    proof {
        assert(x@ =~= x@.take(i as int) + t);
        lemma_decode_concat(x@.take(i as int), t);
        assert(out@ =~= decode_sextets(x@.take(i as int)) + decode_sextets(t));
    }
    out
}

/// Decodes standard base64 (padding optional; decoding stops at the first
/// `=`).
pub fn base64_decode(s: &Vec<char>) -> (r: Result<Vec<u8>, LauncherError>)
    ensures
        match b64_decode_spec(s@) {
            Ok(bytes) => r matches Ok(v) && v@ == bytes,
            Err(c) => r matches Err(e) && e@ == Fault::DshInstall(
                "invalid base64 char "@ + seq![lead_byte(c) as char] + " in integrity"@,
            ),
        },
{
    proof {
        crate::text::lemma_find_from_props(s@, seq!['='], 0);
    }
    let body = match find_char(s, '=') {
        Some(k) => slice_of(s, 0, k),
        None => slice_of(s, 0, s.len()),
    };
    assert(body@ == b64_body(s@)) by {
        assert(s@.subrange(0, s.len() as int) =~= s@);
    }
    match sextets_of(&body) {
        Err(c) => {
            let mut m = chars_of("invalid base64 char ");
            let ch = lead_byte_exec(c) as char;
            m.push(ch);
            extend(&mut m, &chars_of(" in integrity"));
            assert(m@ =~= "invalid base64 char "@ + seq![lead_byte(c) as char] + " in integrity"@);
            Err(LauncherError::DshInstall(string_of(&m)))
        },
        Ok(x) => {
            assert forall|k: int| 0 <= k < x.len() implies x@[k] < 64 by {
                lemma_first_bad_none(body@, k);
            }
            Ok(decode_sextets_exec(&x))
        },
    }
}

proof fn lemma_first_bad_none(s: Seq<char>, k: int)
    requires
        first_bad(s) is None,
        0 <= k < s.len(),
    ensures
        0 <= b64_index(s[k]) < 64,
    decreases s.len(),
{
    if k > 0 {
        lemma_first_bad_none(s.drop_first(), k - 1);
    }
}

// ---------------------------------------------------------------------------
// The integrity field
// ---------------------------------------------------------------------------

/// What `parse_integrity` gives for a `dist.integrity` value: the SHA-512
/// digest it carries, or the error.
pub open spec fn integrity_spec(s: Seq<char>) -> Result<Seq<u8>, Fault> {
    match find(s, seq!['-']) {
        None => Err(Fault::DshInstall("malformed integrity: "@ + s)),
        Some(k) => if s.take(k) != "sha512"@ {
            Err(
                Fault::DshInstall(
                    "unsupported integrity algorithm: "@ + s.take(k) + " (only sha512 supported)"@,
                ),
            )
        } else {
            match b64_decode_spec(s.skip(k + 1)) {
                Ok(d) => Ok(d),
                Err(c) => Err(
                    Fault::DshInstall(
                        "invalid base64 char "@ + seq![lead_byte(c) as char] + " in integrity"@,
                    ),
                ),
            }
        },
    }
}

/// Parses an npm `dist.integrity` value (`sha512-<base64>`) into the
/// algorithm and the digest. Only sha512 is accepted.
pub fn parse_integrity(integrity: &str) -> (r: Result<(&'static str, Vec<u8>), LauncherError>)
    ensures
        match integrity_spec(integrity@) {
            Ok(d) => r matches Ok((algo, digest)) && algo@ == "sha512"@ && digest@ == d,
            Err(f) => r matches Err(e) && e@ == f,
        },
{
    let s = chars_of(integrity);
    proof {
        crate::text::lemma_find_from_props(s@, seq!['-'], 0);
    }
    let k = match find_char(&s, '-') {
        Some(k) => k,
        None => {
            let mut m = chars_of("malformed integrity: ");
            extend(&mut m, &s);
            return Err(LauncherError::DshInstall(string_of(&m)));
        },
    };
    let algo = slice_of(&s, 0, k);
    assert(algo@ == s@.take(k as int));
    if !crate::text::eq(&algo, &chars_of("sha512")) {
        let mut m = chars_of("unsupported integrity algorithm: ");
        extend(&mut m, &algo);
        extend(&mut m, &chars_of(" (only sha512 supported)"));
        return Err(LauncherError::DshInstall(string_of(&m)));
    }
    let b64 = slice_of(&s, k + 1, s.len());
    assert(b64@ =~= s@.skip(k + 1));
    match base64_decode(&b64) {
        Ok(digest) => Ok(("sha512", digest)),
        Err(e) => Err(e),
    }
}

// ---------------------------------------------------------------------------
// Digest and checks
// ---------------------------------------------------------------------------

/// The SHA-512 digest of `data`.
pub uninterp spec fn sha512_digest(data: Seq<u8>) -> Seq<u8>;

/// `sha2::Sha512` over `data`: its digest, which is 64 bytes long.
#[verifier::external_body]
fn sha512_bytes(data: &[u8]) -> (r: Vec<u8>)
    ensures
        r@ == sha512_digest(data@),
        r@.len() == 64,
{
    let mut hasher = sha2::Sha512::new();
    hasher.update(data);
    hasher.finalize().to_vec()
}

/// The SHA-512 digest of `data`.
pub fn sha512(data: &[u8]) -> (r: Vec<u8>)
    ensures
        r@ == sha512_digest(data@),
        r@.len() == 64,
{
    sha512_bytes(data)
}

/// The mismatch error for a digest of `actual` bytes against one of
/// `expected` bytes.
pub open spec fn mismatch_fault(expected: nat, actual: nat) -> Fault {
    Fault::DshInstall(
        "tarball integrity mismatch: expected "@ + dec(expected) + " bytes, got "@ + dec(actual)
            + " bytes (sha512)"@,
    )
}

/// Compares a computed digest with the expected one.
pub fn check_digest(actual: &Vec<u8>, expected: &Vec<u8>) -> (r: Result<(), LauncherError>)
    ensures
        actual@ == expected@ ==> r is Ok,
        actual@ != expected@ ==> (r matches Err(e) && e@ == mismatch_fault(
            expected@.len(),
            actual@.len(),
        )),
{
    let mut same = actual.len() == expected.len();
    if same {
        for i in 0..actual.len()
            invariant
                actual.len() == expected.len(),
                same == (forall|k: int| 0 <= k < i ==> actual@[k] == expected@[k]),
        {
            if actual[i] != expected[i] {
                same = false;
            }
        }
        if same {
            assert(actual@ =~= expected@);
        }
    }
    if same {
        return Ok(());
    }
    let mut m = chars_of("tarball integrity mismatch: expected ");
    extend(&mut m, &dec_exec(expected.len() as u64));
    extend(&mut m, &chars_of(" bytes, got "));
    extend(&mut m, &dec_exec(actual.len() as u64));
    extend(&mut m, &chars_of(" bytes (sha512)"));
    Err(LauncherError::DshInstall(string_of(&m)))
}

/// What checking a tarball against an integrity value gives.
pub open spec fn tarball_check_spec(tarball: Seq<u8>, integrity: Seq<char>) -> Result<(), Fault> {
    match integrity_spec(integrity) {
        Err(f) => Err(f),
        Ok(expected) => if sha512_digest(tarball) == expected {
            Ok(())
        } else {
            Err(mismatch_fault(expected.len(), 64))
        },
    }
}

/// Checks the tarball's SHA-512 against the integrity value.
pub fn verify_tarball_integrity(tarball: &[u8], integrity: &str) -> (r: Result<
    (),
    LauncherError,
>)
    ensures
        match tarball_check_spec(tarball@, integrity@) {
            Ok(_) => r is Ok,
            Err(f) => r matches Err(e) && e@ == f,
        },
{
    let (_algo, expected) = parse_integrity(integrity)?;
    let actual = sha512(tarball);
    check_digest(&actual, &expected)
}

/// The error for a missing entry script under `module_dir`.
pub open spec fn missing_entry_fault(module_dir: Seq<char>) -> Fault {
    Fault::DshInstall("dsh entry not found: expected "@ + join_path(module_dir, "lib/bin.js"@))
}

/// The entry script `lib/bin.js` under the dsh module directory must exist;
/// `entry_exists` says whether it does.
pub fn verify_entry_exists(dsh_module_dir: &str, entry_exists: bool) -> (r: Result<
    (),
    LauncherError,
>)
    ensures
        entry_exists ==> r is Ok,
        !entry_exists ==> (r matches Err(e) && e@ == missing_entry_fault(dsh_module_dir@)),
{
    if entry_exists {
        return Ok(());
    }
    let entry = join_path_exec(dsh_module_dir, DSH_ENTRY_REL);
    let mut m = chars_of("dsh entry not found: expected ");
    extend(&mut m, &chars_of(entry.as_str()));
    Err(LauncherError::DshInstall(string_of(&m)))
}

/// Both checks: the entry script first, then the tarball.
pub fn verify_installation(
    dsh_module_dir: &str,
    entry_exists: bool,
    tarball: &[u8],
    integrity: &str,
) -> (r: Result<(), LauncherError>)
    ensures
        !entry_exists ==> (r matches Err(e) && e@ == missing_entry_fault(dsh_module_dir@)),
        entry_exists ==> match tarball_check_spec(tarball@, integrity@) {
            Ok(_) => r is Ok,
            Err(f) => r matches Err(e) && e@ == f,
        },
{
    verify_entry_exists(dsh_module_dir, entry_exists)?;
    verify_tarball_integrity(tarball, integrity)?;
    Ok(())
}

/// The standard base64 digit of a value below 64.
pub open spec fn b64_digit(v: u8) -> char {
    if v < 26 {
        (v + 65) as char
    } else if v < 52 {
        (v + 71) as char
    } else if v < 62 {
        (v - 4) as char
    } else if v == 62 {
        '+'
    } else {
        '/'
    }
}

/// The digit values that encode `d`: four per three bytes, and two or three
/// for a last group of one or two bytes.
pub open spec fn encode_values(d: Seq<u8>) -> Seq<u8>
    decreases d.len(),
{
    if d.len() == 0 {
        Seq::empty()
    } else if d.len() == 1 {
        seq![d[0] / 4, ((d[0] % 4) * 16) as u8]
    } else if d.len() == 2 {
        seq![d[0] / 4, ((d[0] % 4) * 16 + d[1] / 16) as u8, ((d[1] % 16) * 4) as u8]
    } else {
        seq![
            d[0] / 4,
            ((d[0] % 4) * 16 + d[1] / 16) as u8,
            ((d[1] % 16) * 4 + d[2] / 64) as u8,
            d[2] % 64,
        ] + encode_values(d.skip(3))
    }
}

/// The base64 digits of `d`, without padding.
pub open spec fn b64_digits(d: Seq<u8>) -> Seq<char> {
    encode_values(d).map_values(|v: u8| b64_digit(v))
}

/// Standard base64 of `d`, padded with `=` to a multiple of four.
pub open spec fn b64_encode(d: Seq<u8>) -> Seq<char> {
    b64_digits(d) + if d.len() % 3 == 1 {
        "=="@
    } else if d.len() % 3 == 2 {
        "="@
    } else {
        Seq::empty()
    }
}

proof fn lemma_digit_index(v: u8)
    requires
        v < 64,
    ensures
        b64_index(b64_digit(v)) == v,
        b64_digit(v) != '=',
{
    if v < 26 {
        assert(b64_digit(v) as int == v + 65);
    } else if v < 52 {
        assert(b64_digit(v) as int == v + 71);
    } else if v < 62 {
        assert(b64_digit(v) as int == v - 4);
    }
}

proof fn lemma_byte_split(a: u8, b: u8, c: u8)
    ensures
        (a / 4) * 4 + ((a % 4) * 16 + b / 16) / 16 == a,
        (((a % 4) * 16 + b / 16) % 16) * 16 + ((b % 16) * 4 + c / 64) / 4 == b,
        (((b % 16) * 4 + c / 64) % 4) * 64 + c % 64 == c,
        (a % 4) * 16 + b / 16 < 64,
        (b % 16) * 4 + c / 64 < 64,
{
    assert((a / 4) * 4 + ((a % 4) * 16 + b / 16) / 16 == a) by (bit_vector);
    assert((((a % 4) * 16 + b / 16) % 16) * 16 + ((b % 16) * 4 + c / 64) / 4 == b) by (bit_vector);
    assert((((b % 16) * 4 + c / 64) % 4) * 64 + c % 64 == c) by (bit_vector);
    assert((a % 4) * 16 + b / 16 < 64) by (bit_vector);
    assert((b % 16) * 4 + c / 64 < 64) by (bit_vector);
}

/// Decoding the digit values of `d` gives `d` back; every value is a digit.
proof fn lemma_encode_values(d: Seq<u8>)
    ensures
        decode_sextets(encode_values(d)) == d,
        forall|i: int| 0 <= i < encode_values(d).len() ==> #[trigger] encode_values(d)[i] < 64,
    decreases d.len(),
{
    let x = encode_values(d);
    if d.len() == 0 {
    } else if d.len() == 1 {
        lemma_byte_split(d[0], 0, 0);
        assert(decode_sextets(x) =~= d);
    } else if d.len() == 2 {
        lemma_byte_split(d[0], d[1], 0);
        assert(decode_sextets(x) =~= d);
    } else {
        lemma_byte_split(d[0], d[1], d[2]);
        lemma_encode_values(d.skip(3));
        assert(x.skip(4) =~= encode_values(d.skip(3)));
        assert(d =~= d.take(3) + d.skip(3));
        assert(decode_sextets(x) =~= d);
        assert forall|i: int| 0 <= i < x.len() implies #[trigger] x[i] < 64 by {
            if i >= 4 {
                assert(x[i] == encode_values(d.skip(3))[i - 4]);
            }
        }
    }
}

proof fn lemma_all_digits(s: Seq<char>)
    requires
        forall|i: int| 0 <= i < s.len() ==> b64_index(#[trigger] s[i]) >= 0,
    ensures
        first_bad(s) is None,
    decreases s.len(),
{
    if s.len() > 0 {
        assert forall|i: int| 0 <= i < s.drop_first().len() implies b64_index(
            #[trigger] s.drop_first()[i],
        ) >= 0 by {
            assert(s.drop_first()[i] == s[i + 1]);
        }
        lemma_all_digits(s.drop_first());
    }
}

/// Base64 decoding undoes base64 encoding, with or without the padding.
pub proof fn law_base64_round_trip(d: Seq<u8>)
    ensures
        b64_decode_spec(b64_encode(d)) == Ok::<Seq<u8>, char>(d),
        b64_decode_spec(b64_digits(d)) == Ok::<Seq<u8>, char>(d),
{
    reveal_strlit("==");
    reveal_strlit("=");
    lemma_encode_values(d);
    let x = encode_values(d);
    let g = b64_digits(d);
    assert forall|i: int| 0 <= i < g.len() implies b64_index(#[trigger] g[i]) == x[i] && g[i]
        != '=' by {
        lemma_digit_index(x[i]);
    }
    assert forall|i: int| 0 <= i < g.len() implies b64_index(#[trigger] g[i]) >= 0 by {
        lemma_digit_index(x[i]);
    }
    lemma_all_digits(g);
    assert(sextets(g) =~= x);
    let e = b64_encode(d);
    crate::text::lemma_find_from_props(e, seq!['='], 0);
    crate::text::lemma_find_from_props(g, seq!['='], 0);
    assert forall|j: int| 0 <= j < g.len() implies !#[trigger] crate::text::matches_at(
        e,
        j,
        seq!['='],
    ) by {
        assert(e.subrange(j, j + 1)[0] == g[j]);
    }
    assert forall|j: int| 0 <= j implies !#[trigger] crate::text::matches_at(g, j, seq!['=']) by {
        if 0 <= j < g.len() {
            assert(g.subrange(j, j + 1)[0] == g[j]);
        }
    }
    if e.len() > g.len() {
        assert(crate::text::matches_at(e, g.len() as int, seq!['='])) by {
            assert(e.subrange(g.len() as int, g.len() as int + 1) =~= seq!['=']);
        }
        assert(find(e, seq!['=']) == Some(g.len() as int));
        assert(e.take(g.len() as int) =~= g);
    } else {
        assert(e =~= g);
    }
    assert(b64_body(e) == g);
    assert(b64_body(g) == g);
}

/// An `sha512-<base64>` integrity value reads back as the digest that was
/// encoded in it, padded or not.
pub proof fn law_integrity_round_trip(d: Seq<u8>)
    ensures
        integrity_spec("sha512-"@ + b64_encode(d)) == Ok::<Seq<u8>, Fault>(d),
        integrity_spec("sha512-"@ + b64_digits(d)) == Ok::<Seq<u8>, Fault>(d),
{
    reveal_strlit("sha512-");
    reveal_strlit("sha512");
    law_base64_round_trip(d);
    let p = "sha512-"@;
    let e1 = p + b64_encode(d);
    let e2 = p + b64_digits(d);
    assert(p[6] == '-');
    crate::text::lemma_find_from_props(e1, seq!['-'], 0);
    crate::text::lemma_find_from_props(e2, seq!['-'], 0);
    assert(crate::text::matches_at(e1, 6, seq!['-'])) by {
        assert(e1.subrange(6, 7) =~= seq!['-']);
    }
    assert(crate::text::matches_at(e2, 6, seq!['-'])) by {
        assert(e2.subrange(6, 7) =~= seq!['-']);
    }
    assert forall|j: int| 0 <= j < 6 implies !#[trigger] crate::text::matches_at(e1, j, seq!['-'])
        by {
        assert(e1.subrange(j, j + 1)[0] == p[j]);
    }
    assert forall|j: int| 0 <= j < 6 implies !#[trigger] crate::text::matches_at(e2, j, seq!['-'])
        by {
        assert(e2.subrange(j, j + 1)[0] == p[j]);
    }
    assert(find(e1, seq!['-']) == Some(6int));
    assert(find(e2, seq!['-']) == Some(6int));
    assert(e1.take(6) =~= "sha512"@);
    assert(e2.take(6) =~= "sha512"@);
    assert(e1.skip(7) =~= b64_encode(d));
    assert(e2.skip(7) =~= b64_digits(d));
}

/// A tarball checks out against the integrity value made from its own
/// digest, and against no other digest.
pub proof fn law_tarball_matches_only_its_digest(tarball: Seq<u8>, integrity: Seq<char>)
    requires
        integrity_spec(integrity) is Ok,
    ensures
        tarball_check_spec(tarball, integrity) is Ok <==> integrity_spec(integrity) == Ok::<
            Seq<u8>,
            Fault,
        >(sha512_digest(tarball)),
{
}

} // verus!
