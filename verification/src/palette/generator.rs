//! A palette derived from a wallpaper's bytes, with a stable hash for caching.
use vstd::prelude::*;

use crate::engine::result::{ReasonCode, YaswitchError};
use vstd::string::StringSliceAdditionalSpecFns;
use crate::text::{push_all, string_from_chars};
use crate::wallpaper::manager::validate_wallpaper_bytes;

verus! {

/// A generated palette with the hash of the wallpaper it came from.
#[derive(Debug, Clone, PartialEq, Eq)]
pub struct GeneratedPalette {
    pub wallpaper_hash: String,
    pub colors: Vec<String>,
}

/// The FNV-1a offset basis.
pub open spec fn fnv_offset() -> u64 {
    0xcbf29ce484222325
}

/// The FNV-1a prime.
pub open spec fn fnv_prime() -> u64 {
    0x100000001b3
}

/// One FNV-1a step: xor in the byte, then multiply by the prime modulo 2^64.
pub open spec fn fnv_step(h: u64, b: u8) -> u64 {
    (((h ^ (b as u64)) as nat * fnv_prime() as nat) % 0x1_0000_0000_0000_0000) as u64
}

/// FNV-1a of `data`, starting from `h`.
pub open spec fn fnv(h: u64, data: Seq<u8>) -> u64
    decreases data.len(),
{
    if data.len() == 0 {
        h
    } else {
        fnv(fnv_step(h, data[0]), data.drop_first())
    }
}

/// A hexadecimal digit, lower case or upper case.
pub open spec fn hex_char(d: nat, upper: bool) -> char {
    if upper {
        seq!['0', '1', '2', '3', '4', '5', '6', '7', '8', '9', 'A', 'B', 'C', 'D', 'E', 'F'][d as int]
    } else {
        seq!['0', '1', '2', '3', '4', '5', '6', '7', '8', '9', 'a', 'b', 'c', 'd', 'e', 'f'][d as int]
    }
}

/// The last `n` hexadecimal digits of `v`, most significant first (zero-padded).
pub open spec fn hex_digits(v: nat, n: nat, upper: bool) -> Seq<char>
    decreases n,
{
    if n == 0 {
        Seq::empty()
    } else {
        hex_digits(v / 16, (n - 1) as nat, upper).push(hex_char(v % 16, upper))
    }
}

/// The hash text of `data` followed by `settings`: FNV-1a in 16 lower-case hex digits.
pub open spec fn stable_hash_spec(data: Seq<u8>, settings: Seq<u8>) -> Seq<char> {
    hex_digits(fnv(fnv_offset(), data + settings) as nat, 16, false)
}

/// `b` rotated left by `k` bits.
pub open spec fn rotl(b: u8, k: u8) -> u8 {
    ((b << k) | (b >> ((8 - k) as u8))) as u8
}

/// The colour derived from one byte: the byte, and it rotated by two and by four bits, as
/// `#RRGGBB` in upper-case hex.
pub open spec fn byte_color(b: u8) -> Seq<char> {
    seq!['#'] + hex_digits(b as nat, 2, true) + hex_digits(rotl(b, 2) as nat, 2, true)
        + hex_digits(rotl(b, 4) as nat, 2, true)
}

/// The byte at `i`, or zero past the end.
pub open spec fn byte_or_zero(data: Seq<u8>, i: int) -> u8 {
    if i < data.len() {
        data[i]
    } else {
        0
    }
}

/// The sixteen colours derived from the first sixteen bytes (zero past the end).
pub open spec fn derived_colors(data: Seq<u8>) -> Seq<Seq<char>> {
    Seq::new(16, |i: int| byte_color(byte_or_zero(data, i)))
}

fn hex_char_exec(d: u64, upper: bool) -> (c: char)
    requires
        d < 16,
    ensures
        c == hex_char(d as nat, upper),
{
    let digits: [char; 16] = if upper {
        ['0', '1', '2', '3', '4', '5', '6', '7', '8', '9', 'A', 'B', 'C', 'D', 'E', 'F']
    } else {
        ['0', '1', '2', '3', '4', '5', '6', '7', '8', '9', 'a', 'b', 'c', 'd', 'e', 'f']
    };
    let c = digits[d as usize];
    proof {
        if upper {
            assert(digits@ =~= seq!['0', '1', '2', '3', '4', '5', '6', '7', '8', '9', 'A', 'B', 'C', 'D', 'E', 'F']);
        } else {
            assert(digits@ =~= seq!['0', '1', '2', '3', '4', '5', '6', '7', '8', '9', 'a', 'b', 'c', 'd', 'e', 'f']);
        }
    }
    c
}

fn hex_digits_exec(v: u64, n: usize, upper: bool) -> (r: Vec<char>)
    ensures
        r@ == hex_digits(v as nat, n as nat, upper),
    decreases n,
{
    if n == 0 {
        Vec::new()
    } else {
        let mut r = hex_digits_exec(v / 16, n - 1, upper);
        r.push(hex_char_exec(v % 16, upper));
        r
    }
}

fn rotl_exec(b: u8, k: u8) -> (r: u8)
    requires
        1 <= k < 8,
    ensures
        r == rotl(b, k),
{
    ((b << k) | (b >> (8 - k))) as u8
}

/// The colour derived from one byte.
pub fn byte_color_exec(b: u8) -> (r: String)
    ensures
        r@ == byte_color(b),
{
    let mut v: Vec<char> = Vec::new();
    v.push('#');
    push_all(&mut v, &hex_digits_exec(b as u64, 2, true));
    push_all(&mut v, &hex_digits_exec(rotl_exec(b, 2) as u64, 2, true));
    push_all(&mut v, &hex_digits_exec(rotl_exec(b, 4) as u64, 2, true));
    assert(v@ =~= byte_color(b));
    string_from_chars(v.as_slice())
}

/// The sixteen colours of a wallpaper's bytes.
pub fn derive_palette(bytes: &[u8]) -> (r: Vec<String>)
    ensures
        r@.map_values(|s: String| s@) == derived_colors(bytes@),
{
    let mut colors: Vec<String> = Vec::new();
    let mut index: usize = 0;
    while index < 16
        invariant
            index <= 16,
            colors@.len() == index,
            forall|k: int| 0 <= k < index ==> #[trigger] colors@[k]@ == byte_color(
                byte_or_zero(bytes@, k),
            ),
        decreases 16 - index,
    {
        let byte: u8 = if index < bytes.len() {
            bytes[index]
        } else {
            0
        };
        colors.push(byte_color_exec(byte));
        index = index + 1;
    }
    assert(colors@.map_values(|s: String| s@) =~= derived_colors(bytes@));
    colors
}

fn fnv_exec(h: u64, data: &[u8]) -> (r: u64)
    ensures
        r == fnv(h, data@),
{
    let mut hash = h;
    let mut i: usize = 0;
    assert(data@.skip(0) =~= data@);
    while i < data.len()
        invariant
            i <= data.len(),
            fnv(h, data@) == fnv(hash, data@.skip(i as int)),
        decreases data.len() - i,
    {
        assert(data@.skip(i as int).drop_first() =~= data@.skip(i + 1));
        hash = (hash ^ (data[i] as u64)).wrapping_mul(0x100000001b3);
        i = i + 1;
    }
    hash
}

proof fn lemma_fnv_concat(h: u64, a: Seq<u8>, b: Seq<u8>)
    ensures
        fnv(h, a + b) == fnv(fnv(h, a), b),
    decreases a.len(),
{
    if a.len() > 0 {
        assert((a + b).drop_first() =~= a.drop_first() + b);
        lemma_fnv_concat(fnv_step(h, a[0]), a.drop_first(), b);
    } else {
        assert(a + b =~= b);
    }
}

/// The hash of `bytes` followed by `settings`.
pub fn stable_hash_with_settings(bytes: &[u8], settings: &[u8]) -> (r: String)
    ensures
        r@ == stable_hash_spec(bytes@, settings@),
{
    let h1 = fnv_exec(0xcbf29ce484222325, bytes);
    let h2 = fnv_exec(h1, settings);
    proof {
        lemma_fnv_concat(fnv_offset(), bytes@, settings@);
    }
    string_from_chars(hex_digits_exec(h2, 16, false).as_slice())
}

/// The hash of `bytes`.
pub fn stable_hash_bytes(bytes: &[u8]) -> (r: String)
    ensures
        r@ == stable_hash_spec(bytes@, Seq::empty()),
{
    let empty: Vec<u8> = Vec::new();
    stable_hash_with_settings(bytes, empty.as_slice())
}

/// The palette of a wallpaper at `path` whose content is `bytes`; an empty file is refused.
pub fn generate_palette_from_wallpaper(path: &str, bytes: &[u8]) -> (r: Result<
    GeneratedPalette,
    YaswitchError,
>)
    ensures
        bytes@.len() == 0 ==> (r matches Err(e) && e.code_of() == ReasonCode::WallpaperDecodeFailed
            && e.message_of() == "wallpaper "@ + path@ + " has empty content"@),
        bytes@.len() > 0 ==> (r matches Ok(p) && p.wallpaper_hash@ == stable_hash_spec(
            bytes@,
            Seq::empty(),
        ) && p.colors@.map_values(|s: String| s@) == derived_colors(bytes@)),
{
    match validate_wallpaper_bytes(path, bytes) {
        Ok(()) => {},
        Err(e) => return Err(e),
    }
    let hash = stable_hash_bytes(bytes);
    let colors = derive_palette(bytes);
    Ok(GeneratedPalette { wallpaper_hash: hash, colors })
}

/// The cache key of a wallpaper whose content is `bytes`, under the generation
/// `settings`.
pub fn palette_cache_key(bytes: &[u8], settings: &str) -> (r: String)
    ensures
        r@ == stable_hash_spec(bytes@, settings.spec_bytes()),
{
    stable_hash_with_settings(bytes, settings.as_bytes())
}

} // verus!
