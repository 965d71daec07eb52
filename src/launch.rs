//! The options that the command line gives a game: sound, the starting
//! level and the seed of the shuffles.
use vstd::prelude::*;

verus! {

/// Seed of the shuffles when none is given.
pub const DEFAULT_SEED: u64 = 1;

/// Level that the expert word starts at.
pub const EXPERT_LEVEL: u8 = 2;

/// Level that the secret word starts at: the hidden layout.
pub const SECRET_LEVEL: u8 = 3;

/// What a game starts with.
#[derive(Debug, Clone, Copy, PartialEq, Eq, Structural)]
pub struct LaunchOptions {
    pub sound_on: bool,
    pub starting_level: u8,
    pub seed: u64,
}

/// The word `nosound`, which turns sound off.
pub open spec fn word_nosound() -> Seq<u8> {
    seq![110u8, 111u8, 115u8, 111u8, 117u8, 110u8, 100u8]
}

/// The word `iknowwhatimdoing`, which starts at the expert level.
pub open spec fn word_expert() -> Seq<u8> {
    seq![
        105u8, 107u8, 110u8, 111u8, 119u8, 119u8, 104u8, 97u8,
        116u8, 105u8, 109u8, 100u8, 111u8, 105u8, 110u8, 103u8,
    ]
}

/// The MD5 digest of the secret word, which is never written out.
pub open spec fn secret_digest() -> Seq<u8> {
    seq![
        0xbfu8, 0x00u8, 0xedu8, 0x3cu8, 0x1au8, 0xccu8, 0xe2u8, 0x78u8,
        0x5cu8, 0x6au8, 0x67u8, 0xa5u8, 0x26u8, 0xf9u8, 0xfeu8, 0x14u8,
    ]
}

/// The MD5 digest of `data`.
pub uninterp spec fn md5_of(data: Seq<u8>) -> Seq<u8>;

/// Relies on `md5::compute`: the MD5 digest of the bytes, which depends on
/// them alone and is sixteen bytes long (`md5::Digest` wraps a `[u8; 16]`).
#[verifier::external_body]
fn md5_digest(data: &Vec<u8>) -> (r: Vec<u8>)
    ensures
        r@ == md5_of(data@),
        r@.len() == 16,
{
    md5::compute(data.as_slice()).0.to_vec()
}

pub open spec fn is_digit(c: u8) -> bool {
    48 <= c <= 57
}

/// The number that a string of decimal digits writes.
pub open spec fn decimal_value(s: Seq<u8>) -> int
    decreases s.len(),
{
    if s.len() == 0 {
        0
    } else {
        decimal_value(s.drop_last()) * 10 + (s.last() - 48)
    }
}

pub open spec fn all_digits(s: Seq<u8>) -> bool {
    forall|i: int| 0 <= i < s.len() ==> #[trigger] is_digit(s[i])
}

/// `s` without its leading `+`, if it has one.
pub open spec fn unsigned_digits(s: Seq<u8>) -> Seq<u8> {
    if s.len() > 0 && s[0] == 43 {
        s.drop_first()
    } else {
        s
    }
}

/// The unsigned 64-bit number that `s` writes in decimal: an optional `+`,
/// then one digit or more, of a value that fits.
pub open spec fn parsed_u64(s: Seq<u8>) -> Option<u64> {
    let digits = unsigned_digits(s);
    if digits.len() > 0 && all_digits(digits) && decimal_value(digits) <= u64::MAX {
        Some(decimal_value(digits) as u64)
    } else {
        None
    }
}

/// A string of digits writes at least what any of its prefixes writes.
proof fn lemma_decimal_prefix(s: Seq<u8>, j: int)
    requires
        all_digits(s),
        0 <= j <= s.len(),
    ensures
        decimal_value(s.take(j)) <= decimal_value(s),
        0 <= decimal_value(s),
    decreases s.len(),
{
    if s.len() > 0 {
        let t = s.drop_last();
        assert(is_digit(s[s.len() - 1]));
        lemma_decimal_prefix(t, if j < s.len() { j } else { t.len() as int });
        if j < s.len() {
            assert(t.take(j) =~= s.take(j));
        } else {
            assert(s.take(j) =~= s);
        }
    } else {
        assert(s.take(j) =~= s);
    }
}

/// Read `s` as an unsigned 64-bit decimal number.
pub fn parse_u64(s: &Vec<u8>) -> (r: Option<u64>)
    ensures
        r == parsed_u64(s@),
{
    let n = s.len();
    let start: usize = if n > 0 && s[0] == 43 {
        1
    } else {
        0
    };
    let ghost digits = unsigned_digits(s@);
    assert(digits =~= s@.subrange(start as int, n as int));
    if start == n {
        return None;
    }
    let mut value: u64 = 0;
    let mut i: usize = start;
    while i < n
        invariant
            start <= i <= n,
            n == s@.len(),
            digits == s@.subrange(start as int, n as int),
            digits == unsigned_digits(s@),
            all_digits(s@.subrange(start as int, i as int)),
            value as int == decimal_value(s@.subrange(start as int, i as int)),
        decreases n - i,
    {
        let c = s[i];
        let ghost done = s@.subrange(start as int, i as int);
        let ghost next = s@.subrange(start as int, i + 1);
        assert(next.drop_last() =~= done);
        if c < 48 || c > 57 {
            assert(!is_digit(digits[i - start]));
            assert(!all_digits(digits));
            return None;
        }
        let d = (c - 48) as u64;
        let limit = (u64::MAX - d) / 10;
        proof {
            let m = u64::MAX - d;
            vstd::arithmetic::div_mod::lemma_fundamental_div_mod(m as int, 10);
            vstd::arithmetic::div_mod::lemma_mod_bound(m as int, 10);
            assert(decimal_value(next) == value * 10 + d);
            if value > limit {
                assert(value * 10 + d > u64::MAX) by (nonlinear_arith)
                    requires
                        value >= limit + 1,
                        m == 10 * limit + m % 10,
                        m % 10 < 10,
                        m == u64::MAX - d,
                ;
            } else {
                assert(value * 10 + d <= u64::MAX) by (nonlinear_arith)
                    requires
                        value <= limit,
                        m == 10 * limit + m % 10,
                        m % 10 >= 0,
                        m == u64::MAX - d,
                ;
            }
        }
        if value > limit {
            proof {
                assert(all_digits(next));
                assert(decimal_value(next) > u64::MAX);
                if all_digits(digits) {
                    assert(digits.take(next.len() as int) =~= next);
                    lemma_decimal_prefix(digits, next.len() as int);
                }
            }
            return None;
        }
        value = value * 10 + d;
        assert(all_digits(next));
        i += 1;
    }
    assert(s@.subrange(start as int, n as int) =~= digits);
    Some(value)
}

/// Whether a digest is the secret word's.
pub fn is_secret_digest(digest: &Vec<u8>) -> (r: bool)
    ensures
        r == (digest@ == secret_digest()),
{
    let secret: [u8; 16] = [
        0xbf, 0x00, 0xed, 0x3c, 0x1a, 0xcc, 0xe2, 0x78,
        0x5c, 0x6a, 0x67, 0xa5, 0x26, 0xf9, 0xfe, 0x14,
    ];
    assert(secret@ =~= secret_digest());
    same_bytes(digest, &secret)
}

/// Whether `a` holds exactly the bytes of `word`.
fn same_bytes(a: &Vec<u8>, word: &[u8]) -> (r: bool)
    ensures
        r == (a@ == word@),
{
    if a.len() != word.len() {
        return false;
    }
    let mut i: usize = 0;
    while i < a.len()
        invariant
            a@.len() == word@.len(),
            i <= a@.len(),
            forall|j: int| 0 <= j < i ==> a@[j] == word@[j],
        decreases a@.len() - i,
    {
        if a[i] != word[i] {
            return false;
        }
        i += 1;
    }
    assert(a@ =~= word@);
    true
}

/// The options after one command-line argument: `nosound` turns sound
/// off, `iknowwhatimdoing` starts at the expert level, a number becomes the
/// seed, and the secret word, known by its digest, starts at the hidden
/// layout. Anything else changes nothing.
pub open spec fn apply_argument(o: LaunchOptions, arg: Seq<u8>) -> LaunchOptions {
    if arg == word_nosound() {
        LaunchOptions { sound_on: false, ..o }
    } else if arg == word_expert() {
        LaunchOptions { starting_level: EXPERT_LEVEL, ..o }
    } else if parsed_u64(arg) is Some {
        LaunchOptions { seed: parsed_u64(arg)->0, ..o }
    } else if md5_of(arg) == secret_digest() {
        LaunchOptions { starting_level: SECRET_LEVEL, ..o }
    } else {
        o
    }
}

/// The options before any argument.
pub open spec fn default_options() -> LaunchOptions {
    LaunchOptions { sound_on: true, starting_level: 0, seed: DEFAULT_SEED }
}

/// The options after the arguments, taken in order.
pub open spec fn options_after(args: Seq<Seq<u8>>) -> LaunchOptions
    decreases args.len(),
{
    if args.len() == 0 {
        default_options()
    } else {
        apply_argument(options_after(args.drop_last()), args.last())
    }
}

impl LaunchOptions {
    /// The options after one more argument.
    pub fn with_argument(self, arg: &Vec<u8>) -> (r: LaunchOptions)
        ensures
            r == apply_argument(self, arg@),
    {
        let nosound: [u8; 7] = [110, 111, 115, 111, 117, 110, 100];
        let expert: [u8; 16] = [
            105, 107, 110, 111, 119, 119, 104, 97,
            116, 105, 109, 100, 111, 105, 110, 103,
        ];
        assert(nosound@ =~= word_nosound());
        assert(expert@ =~= word_expert());
        if same_bytes(arg, &nosound) {
            LaunchOptions { sound_on: false, ..self }
        } else if same_bytes(arg, &expert) {
            LaunchOptions { starting_level: EXPERT_LEVEL, ..self }
        } else if let Some(seed) = parse_u64(arg) {
            LaunchOptions { seed, ..self }
        } else if is_secret_digest(&md5_digest(arg)) {
            LaunchOptions { starting_level: SECRET_LEVEL, ..self }
        } else {
            self
        }
    }

    /// The options that the command-line arguments give, taken in order.
    pub fn from_arguments(args: &Vec<Vec<u8>>) -> (r: LaunchOptions)
        ensures
            r == options_after(args@.map_values(|a: Vec<u8>| a@)),
    {
        let ghost views = args@.map_values(|a: Vec<u8>| a@);
        let mut o = LaunchOptions { sound_on: true, starting_level: 0, seed: DEFAULT_SEED };
        let mut i: usize = 0;
        while i < args.len()
            invariant
                i <= args@.len(),
                views == args@.map_values(|a: Vec<u8>| a@),
                o == options_after(views.take(i as int)),
            decreases args@.len() - i,
        {
            assert(views.take(i + 1).drop_last() =~= views.take(i as int));
            o = o.with_argument(&args[i]);
            i += 1;
        }
        assert(views.take(args@.len() as int) =~= views);
        o
    }
}

} // verus!
