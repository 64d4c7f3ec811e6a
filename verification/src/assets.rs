use vstd::prelude::*;
use crate::strings::{
    ascii_lower_seq, contains_seq, ends_with_ascii_lower, ends_with_seq, starts_with_seq,
    str_contains, str_starts_with,
};
use base64::Engine as _;

verus! {

/// The type field of an asset, as far as the engine reads it.
#[derive(Debug, Clone, PartialEq)]
pub enum AssetTypeValue {
    /// A JSON number, with its value when it is an integer that fits in an `i64`.
    Number(Option<i64>),
    /// A JSON string.
    Text(String),
    /// Any other JSON value.
    Other,
}

/// What an asset is registered as when an animation is loaded.
#[derive(Debug, Clone, Copy, PartialEq, Eq, Structural)]
pub enum AssetClass {
    DataSource,
    Sound,
    Image,
}

/// The path an asset is found at: the `p` field as is when it is a data URI,
/// otherwise the directory `u` followed by `p` when `u` is present and not empty.
pub open spec fn spec_asset_path(u: Option<Seq<char>>, p: Option<Seq<char>>) -> Option<Seq<char>> {
    match p {
        None => None,
        Some(p) => if starts_with_seq(p, "data:"@) {
            Some(p)
        } else {
            match u {
                Some(u) => if u.len() > 0 {
                    Some(u + p)
                } else {
                    Some(p)
                },
                None => Some(p),
            }
        },
    }
}

pub open spec fn opt_view(s: Option<&str>) -> Option<Seq<char>> {
    match s {
        Some(s) => Some(s@),
        None => None,
    }
}

/// Computes the path of an asset from its directory `u` and file name `p`.
pub fn asset_path(u: Option<&str>, p: Option<&str>) -> (r: Option<String>)
    ensures
        match r {
            Some(s) => spec_asset_path(opt_view(u), opt_view(p)) == Some(s@),
            None => spec_asset_path(opt_view(u), opt_view(p)) is None,
        },
{
    let p = match p {
        Some(p) => p,
        None => return None,
    };
    if str_starts_with(p, "data:") {
        return Some(String::from_str(p));
    }
    match u {
        Some(u) => {
            if u.unicode_len() > 0 {
                let s = String::from_str(u);
                Some(s.concat(p))
            } else {
                Some(String::from_str(p))
            }
        },
        None => Some(String::from_str(p)),
    }
}

/// A path names a sound file when, lowercased in ASCII, it ends in one of the
/// audio extensions the engine recognises.
pub open spec fn spec_is_sound_path(path: Seq<char>) -> bool {
    let l = ascii_lower_seq(path);
    ends_with_seq(l, ".wav"@) || ends_with_seq(l, ".mp3"@) || ends_with_seq(l, ".ogg"@)
        || ends_with_seq(l, ".aac"@) || ends_with_seq(l, ".m4a"@) || ends_with_seq(l, ".flac"@)
}

/// Two suffixes of one sequence end in the same element.
proof fn lemma_suffixes_share_last(s: Seq<char>, a: Seq<char>, b: Seq<char>)
    requires
        ends_with_seq(s, a),
        ends_with_seq(s, b),
        a.len() > 0,
        b.len() > 0,
    ensures
        a.last() == b.last(),
{
    assert(a.last() == s.subrange(s.len() - a.len(), s.len() as int)[a.len() - 1]);
    assert(b.last() == s.subrange(s.len() - b.len(), s.len() as int)[b.len() - 1]);
}

/// Every recognised audio extension makes a sound path on its own, whatever the
/// case of its letters: a path whose ASCII-lowercased form ends in `.wav`,
/// `.mp3`, `.ogg`, `.aac`, `.m4a` or `.flac` is a sound path, and a sound path is
/// one of these. A sound path is never a data path.
pub proof fn lemma_sound_path_extensions(path: Seq<char>)
    ensures
        ends_with_seq(ascii_lower_seq(path), ".wav"@) ==> spec_is_sound_path(path),
        ends_with_seq(ascii_lower_seq(path), ".mp3"@) ==> spec_is_sound_path(path),
        ends_with_seq(ascii_lower_seq(path), ".ogg"@) ==> spec_is_sound_path(path),
        ends_with_seq(ascii_lower_seq(path), ".aac"@) ==> spec_is_sound_path(path),
        ends_with_seq(ascii_lower_seq(path), ".m4a"@) ==> spec_is_sound_path(path),
        ends_with_seq(ascii_lower_seq(path), ".flac"@) ==> spec_is_sound_path(path),
        spec_is_sound_path(path) ==> {
            let l = ascii_lower_seq(path);
            ||| ends_with_seq(l, ".wav"@)
            ||| ends_with_seq(l, ".mp3"@)
            ||| ends_with_seq(l, ".ogg"@)
            ||| ends_with_seq(l, ".aac"@)
            ||| ends_with_seq(l, ".m4a"@)
            ||| ends_with_seq(l, ".flac"@)
        },
        spec_is_sound_path(path) ==> !spec_is_data_path(path),
{
    reveal_strlit(".wav");
    reveal_strlit(".mp3");
    reveal_strlit(".ogg");
    reveal_strlit(".aac");
    reveal_strlit(".m4a");
    reveal_strlit(".flac");
    reveal_strlit(".json");
    assert(".json"@.last() == 'n');
    assert(".wav"@.last() == 'v');
    assert(".mp3"@.last() == '3');
    assert(".ogg"@.last() == 'g');
    assert(".aac"@.last() == 'c');
    assert(".m4a"@.last() == 'a');
    assert(".flac"@.last() == 'c');
    let l = ascii_lower_seq(path);
    if spec_is_sound_path(path) && spec_is_data_path(path) {
        if ends_with_seq(l, ".wav"@) {
            lemma_suffixes_share_last(l, ".wav"@, ".json"@);
        } else if ends_with_seq(l, ".mp3"@) {
            lemma_suffixes_share_last(l, ".mp3"@, ".json"@);
        } else if ends_with_seq(l, ".ogg"@) {
            lemma_suffixes_share_last(l, ".ogg"@, ".json"@);
        } else if ends_with_seq(l, ".aac"@) {
            lemma_suffixes_share_last(l, ".aac"@, ".json"@);
        } else if ends_with_seq(l, ".m4a"@) {
            lemma_suffixes_share_last(l, ".m4a"@, ".json"@);
        } else {
            lemma_suffixes_share_last(l, ".flac"@, ".json"@);
        }
    }
}

/// A path names a data file when, lowercased in ASCII, it ends in `.json`.
pub open spec fn spec_is_data_path(path: Seq<char>) -> bool {
    ends_with_seq(ascii_lower_seq(path), ".json"@)
}

/// Whether a path names a sound file (`.wav`, `.mp3`, `.ogg`, `.aac`, `.m4a`, `.flac`).
pub fn is_sound_path(path: &str) -> (r: bool)
    ensures
        r == spec_is_sound_path(path@),
{
    ends_with_ascii_lower(path, ".wav") || ends_with_ascii_lower(path, ".mp3")
        || ends_with_ascii_lower(path, ".ogg") || ends_with_ascii_lower(path, ".aac")
        || ends_with_ascii_lower(path, ".m4a") || ends_with_ascii_lower(path, ".flac")
}

/// Whether a path names a JSON data file.
pub fn is_data_path(path: &str) -> (r: bool)
    ensures
        r == spec_is_data_path(path@),
{
    ends_with_ascii_lower(path, ".json")
}

pub open spec fn is_digit(c: char) -> bool {
    '0' <= c && c <= '9'
}

pub open spec fn all_digits(s: Seq<char>) -> bool {
    forall|i: int| 0 <= i < s.len() ==> is_digit(s[i])
}

pub open spec fn digit_value(c: char) -> int {
    (c as int) - ('0' as int)
}

/// The number that a sequence of decimal digits spells.
pub open spec fn decimal_value(s: Seq<char>) -> int
    decreases s.len(),
{
    if s.len() == 0 {
        0
    } else {
        decimal_value(s.drop_last()) * 10 + digit_value(s.last())
    }
}

/// Decimal parsing of an `i64` as Rust's `str::parse` does it: an optional `+` or
/// `-` sign followed by at least one ASCII digit and nothing else, with a value
/// inside the range of `i64`.
pub open spec fn spec_parse_i64(s: Seq<char>) -> Option<i64> {
    if s.len() == 0 {
        None
    } else {
        let neg = s[0] == '-';
        let digits = if s[0] == '-' || s[0] == '+' {
            s.drop_first()
        } else {
            s
        };
        let v = if neg {
            -decimal_value(digits)
        } else {
            decimal_value(digits)
        };
        if digits.len() > 0 && all_digits(digits) && i64::MIN <= v <= i64::MAX {
            Some(v as i64)
        } else {
            None
        }
    }
}

proof fn lemma_decimal_nonneg(s: Seq<char>)
    requires
        forall|i: int| 0 <= i < s.len() ==> is_digit(s[i]),
    ensures
        decimal_value(s) >= 0,
    decreases s.len(),
{
    if s.len() > 0 {
        lemma_decimal_nonneg(s.drop_last());
    }
}

/// A prefix of a digit string never spells a larger number than the whole.
proof fn lemma_decimal_prefix_le(s: Seq<char>, k: int)
    requires
        0 <= k <= s.len(),
        forall|i: int| 0 <= i < s.len() ==> is_digit(s[i]),
    ensures
        decimal_value(s.subrange(0, k)) <= decimal_value(s),
    decreases s.len(),
{
    if k < s.len() {
        let t = s.drop_last();
        lemma_decimal_prefix_le(t, k);
        assert(t.subrange(0, k) =~= s.subrange(0, k));
        lemma_decimal_nonneg(t);
        assert(decimal_value(s) == decimal_value(t) * 10 + digit_value(s.last()));
        assert(decimal_value(t) <= decimal_value(t) * 10) by (nonlinear_arith)
            requires
                decimal_value(t) >= 0,
        ;
    } else {
        assert(s.subrange(0, k) =~= s);
    }
}

/// Parses a decimal `i64` the way `str::parse::<i64>` does.
pub fn parse_i64(s: &str) -> (r: Option<i64>)
    ensures
        r == spec_parse_i64(s@),
{
    let n = s.unicode_len();
    if n == 0 {
        return None;
    }
    let first = s.get_char(0);
    let neg = first == '-';
    let start: usize = if first == '-' || first == '+' {
        1
    } else {
        0
    };
    let ghost digits = if first == '-' || first == '+' {
        s@.drop_first()
    } else {
        s@
    };
    assert(digits =~= s@.subrange(start as int, n as int));
    if start == n {
        return None;
    }
    let mut i: usize = start;
    let mut acc: u64 = 0;
    let mut overflow: bool = false;
    while i < n
        invariant
            n == s@.len(),
            n > 0,
            s@[0] == first,
            digits == (if first == '-' || first == '+' {
                s@.drop_first()
            } else {
                s@
            }),
            start <= i <= n,
            digits == s@.subrange(start as int, n as int),
            forall|j: int| start <= j < i ==> is_digit(s@[j]),
            !overflow ==> acc as int == decimal_value(s@.subrange(start as int, i as int)),
            overflow ==> decimal_value(s@.subrange(start as int, i as int)) > u64::MAX,
        decreases n - i,
    {
        let c = s.get_char(i);
        if !('0' <= c && c <= '9') {
            assert(!is_digit(digits[i - start]));
            assert(s@[0] == first);
            assert(!all_digits(digits));
            assert(spec_parse_i64(s@) is None);
            return None;
        }
        let d: u64 = (c as u32 - '0' as u32) as u64;
        let ghost pre = s@.subrange(start as int, i as int);
        let ghost next = s@.subrange(start as int, i + 1);
        assert(next.drop_last() =~= pre);
        assert(next.last() == c);
        proof {
            assert forall|j: int| 0 <= j < pre.len() implies is_digit(pre[j]) by {
                assert(pre[j] == s@[start + j]);
            }
            lemma_decimal_nonneg(pre);
        }
        if !overflow {
            match acc.checked_mul(10) {
                Some(m) => match m.checked_add(d) {
                    Some(v) => {
                        acc = v;
                    },
                    None => {
                        overflow = true;
                    },
                },
                None => {
                    overflow = true;
                },
            }
        } else {
            assert(decimal_value(pre) * 10 >= decimal_value(pre)) by (nonlinear_arith)
                requires
                    decimal_value(pre) >= 0,
            ;
        }
        i = i + 1;
    }
    assert(s@.subrange(start as int, n as int) == digits);
    assert forall|j: int| 0 <= j < digits.len() implies is_digit(digits[j]) by {
        assert(digits[j] == s@[start + j]);
    }
    if overflow {
        return None;
    }
    if neg {
        if acc <= 9223372036854775808u64 {
            if acc == 9223372036854775808u64 {
                Some(i64::MIN)
            } else {
                let v: i64 = acc as i64;
                Some(-v)
            }
        } else {
            None
        }
    } else {
        if acc <= 9223372036854775807u64 {
            Some(acc as i64)
        } else {
            None
        }
    }
}

pub open spec fn spec_asset_type_code(t: Option<AssetTypeValue>) -> Option<i64> {
    match t {
        Some(AssetTypeValue::Number(n)) => n,
        Some(AssetTypeValue::Text(s)) => spec_parse_i64(s@),
        _ => None,
    }
}

/// The numeric type code of an asset: a JSON integer as is, or a string that
/// parses as a decimal integer.
pub fn asset_type_code(t: &Option<AssetTypeValue>) -> (r: Option<i64>)
    ensures
        r == spec_asset_type_code(*t),
{
    match t {
        Some(AssetTypeValue::Number(n)) => *n,
        Some(AssetTypeValue::Text(s)) => parse_i64(s.as_str()),
        _ => None,
    }
}

pub open spec fn spec_asset_class(
    referenced_by_data_layer: bool,
    referenced_by_audio_layer: bool,
    type_code: Option<i64>,
    path: Option<Seq<char>>,
) -> AssetClass {
    if referenced_by_data_layer || type_code == Some(3i64) || (path matches Some(p)
        && spec_is_data_path(p)) {
        AssetClass::DataSource
    } else if referenced_by_audio_layer || (path matches Some(p) && spec_is_sound_path(p)) {
        AssetClass::Sound
    } else {
        AssetClass::Image
    }
}

/// An asset whose path names a sound file is loaded as a sound unless a data
/// layer refers to it or its type code is 3; nothing but an audio layer's
/// reference or a sound path makes an asset a sound.
pub proof fn lemma_sound_assets(
    referenced_by_data_layer: bool,
    referenced_by_audio_layer: bool,
    type_code: Option<i64>,
    path: Option<Seq<char>>,
)
    ensures
        !referenced_by_data_layer && type_code != Some(3i64) && (path matches Some(p)
            && spec_is_sound_path(p)) ==> spec_asset_class(
            referenced_by_data_layer,
            referenced_by_audio_layer,
            type_code,
            path,
        ) == AssetClass::Sound,
        spec_asset_class(referenced_by_data_layer, referenced_by_audio_layer, type_code, path)
            == AssetClass::Sound ==> referenced_by_audio_layer || (path matches Some(p)
            && spec_is_sound_path(p)),
{
    if let Some(p) = path {
        lemma_sound_path_extensions(p);
    }
}

/// Decides what an asset is loaded as: a data source when a data layer refers to
/// it, its type code is 3, or its path is a JSON file; otherwise a sound when an
/// audio layer refers to it or its path is an audio file; otherwise an image.
pub fn asset_class(
    referenced_by_data_layer: bool,
    referenced_by_audio_layer: bool,
    type_code: Option<i64>,
    path: Option<&str>,
) -> (r: AssetClass)
    ensures
        r == spec_asset_class(
            referenced_by_data_layer,
            referenced_by_audio_layer,
            type_code,
            opt_view(path),
        ),
{
    let data_path = match path {
        Some(p) => is_data_path(p),
        None => false,
    };
    if referenced_by_data_layer || type_code == Some(3i64) || data_path {
        return AssetClass::DataSource;
    }
    let sound_path = match path {
        Some(p) => is_sound_path(p),
        None => false,
    };
    if referenced_by_audio_layer || sound_path {
        AssetClass::Sound
    } else {
        AssetClass::Image
    }
}

/// What the asset registry reads of a layer: its type code and the asset it refers to.
#[derive(Debug, Clone)]
pub struct LayerLink {
    pub ty: u8,
    pub ref_id: Option<String>,
}

/// What the asset registry reads of an asset.
#[derive(Debug, Clone)]
pub struct AssetEntry {
    pub id: String,
    /// Directory of the asset file.
    pub u: Option<String>,
    /// File name, or a data URI.
    pub p: Option<String>,
    /// The asset's type field.
    pub t: Option<AssetTypeValue>,
    /// The layers of a precomposition.
    pub layers: Option<Vec<LayerLink>>,
}

/// The asset an id denotes: the last asset in the list with that id (later
/// entries replace earlier ones).
#[verifier::opaque]
pub open spec fn asset_by_id(assets: Seq<AssetEntry>, id: Seq<char>) -> Option<int> {
    if exists|k: int| 0 <= k < assets.len() && assets[k].id@ == id {
        Some(
            choose|k: int|
                0 <= k < assets.len() && assets[k].id@ == id && forall|m: int|
                    k < m < assets.len() ==> assets[m].id@ != id,
        )
    } else {
        None
    }
}

/// The layers of the precomposition a layer refers to, if it refers to one.
pub open spec fn nested_layers(l: LayerLink, assets: Seq<AssetEntry>) -> Option<Seq<LayerLink>> {
    match l.ref_id {
        Some(r) => match asset_by_id(assets, r@) {
            Some(k) => match assets[k].layers {
                Some(sub) => Some(sub@),
                None => None,
            },
            None => None,
        },
        None => None,
    }
}

/// Expanding precompositions from `layers` never nests deeper than `fuel` levels.
pub open spec fn expands_within(layers: Seq<LayerLink>, assets: Seq<AssetEntry>, fuel: nat) -> bool
    decreases fuel, layers.len(),
{
    if layers.len() == 0 {
        true
    } else if fuel == 0 {
        false
    } else {
        expands_within(layers.drop_last(), assets, fuel) && match nested_layers(
            layers.last(),
            assets,
        ) {
            Some(sub) => expands_within(sub, assets, (fuel - 1) as nat),
            None => true,
        }
    }
}

/// The asset ids referred to by layers of type `ty` among `layers` and, through
/// precompositions, all layers nested inside them.
pub open spec fn refs_of_type(
    layers: Seq<LayerLink>,
    assets: Seq<AssetEntry>,
    ty: u8,
    fuel: nat,
) -> Set<Seq<char>>
    decreases fuel, layers.len(),
{
    if layers.len() == 0 || fuel == 0 {
        Set::empty()
    } else {
        let l = layers.last();
        let own = if l.ty == ty && l.ref_id is Some {
            set![l.ref_id->0@]
        } else {
            Set::empty()
        };
        let nested = match nested_layers(l, assets) {
            Some(sub) => refs_of_type(sub, assets, ty, (fuel - 1) as nat),
            None => Set::empty(),
        };
        refs_of_type(layers.drop_last(), assets, ty, fuel) + own + nested
    }
}

/// The strings a vector holds, as a set of character sequences.
pub open spec fn string_set(v: Seq<String>) -> Set<Seq<char>> {
    Set::new(|x: Seq<char>| exists|i: int| 0 <= i < v.len() && v[i]@ == x)
}

/// Adds a string to a vector used as a set, unless it is there already.
fn insert_string(v: &mut Vec<String>, s: &String)
    ensures
        string_set(final(v)@) == string_set(old(v)@).insert(s@),
{
    let mut i: usize = 0;
    while i < v.len()
        invariant
            i <= v@.len(),
            forall|j: int| 0 <= j < i ==> v@[j]@ != s@,
        decreases v@.len() - i,
    {
        if v[i] == *s {
            assert(string_set(v@) =~= string_set(v@).insert(s@));
            return;
        }
        i = i + 1;
    }
    let ghost before = v@;
    v.push(s.clone());
    assert(string_set(v@) =~= string_set(before).insert(s@)) by {
        assert forall|x: Seq<char>| string_set(v@).contains(x) implies string_set(before).insert(
            s@,
        ).contains(x) by {
            let i = choose|i: int| 0 <= i < v@.len() && v@[i]@ == x;
            if i < before.len() {
                assert(before[i]@ == x);
            }
        }
        assert forall|x: Seq<char>| string_set(before).insert(s@).contains(x) implies string_set(
            v@,
        ).contains(x) by {
            if x == s@ {
                assert(v@[before.len() as int]@ == x);
            } else {
                let i = choose|i: int| 0 <= i < before.len() && before[i]@ == x;
                assert(v@[i]@ == x);
            }
        }
    }
}

/// The last asset with a given id.
fn find_asset(assets: &Vec<AssetEntry>, id: &String) -> (r: Option<usize>)
    ensures
        match r {
            Some(k) => k < assets@.len() && asset_by_id(assets@, id@) == Some(k as int),
            None => asset_by_id(assets@, id@) is None,
        },
{
    let mut i: usize = assets.len();
    while i > 0
        invariant
            i <= assets@.len(),
            forall|m: int| i <= m < assets@.len() ==> assets@[m].id@ != id@,
        decreases i,
    {
        i = i - 1;
        if assets[i].id == *id {
            reveal(asset_by_id);
            let ghost c = choose|k: int|
                0 <= k < assets@.len() && assets@[k].id@ == id@ && forall|m: int|
                    k < m < assets@.len() ==> assets@[m].id@ != id@;
            assert(c == i as int) by {
                if c < i {
                    assert(assets@[i as int].id@ != id@);
                }
                if c > i {
                    assert(assets@[c].id@ != id@);
                }
            }
            return Some(i);
        }
    }
    reveal(asset_by_id);
    None
}

/// Walks `layers` and the precompositions they refer to, adding the asset ids
/// referred to by audio layers (type 6) and by data layers (type 15). Returns
/// `false`, with the sets in an unspecified state, when the walk would nest
/// deeper than `fuel` levels.
fn collect_refs_rec(
    layers: &Vec<LayerLink>,
    assets: &Vec<AssetEntry>,
    fuel: usize,
    audio: &mut Vec<String>,
    data: &mut Vec<String>,
) -> (ok: bool)
    ensures
        ok == expands_within(layers@, assets@, fuel as nat),
        ok ==> string_set(final(audio)@) == string_set(old(audio)@) + refs_of_type(
            layers@,
            assets@,
            6,
            fuel as nat,
        ),
        ok ==> string_set(final(data)@) == string_set(old(data)@) + refs_of_type(
            layers@,
            assets@,
            15,
            fuel as nat,
        ),
    decreases fuel,
{
    let n = layers.len();
    if n == 0 {
        assert(string_set(audio@) + refs_of_type(layers@, assets@, 6, fuel as nat) =~= string_set(
            audio@,
        ));
        assert(string_set(data@) + refs_of_type(layers@, assets@, 15, fuel as nat) =~= string_set(
            data@,
        ));
        return true;
    }
    if fuel == 0 {
        return false;
    }
    let ghost audio0 = string_set(audio@);
    let ghost data0 = string_set(data@);
    let mut i: usize = 0;
    while i < n
        invariant
            n == layers@.len(),
            fuel > 0,
            i <= n,
            expands_within(layers@.take(i as int), assets@, fuel as nat),
            string_set(audio@) == audio0 + refs_of_type(
                layers@.take(i as int),
                assets@,
                6,
                fuel as nat,
            ),
            string_set(data@) == data0 + refs_of_type(
                layers@.take(i as int),
                assets@,
                15,
                fuel as nat,
            ),
        decreases n - i,
    {
        let layer = &layers[i];
        let ghost pre = layers@.take(i as int);
        let ghost cur = layers@.take(i + 1);
        assert(cur.drop_last() =~= pre);
        assert(cur.last() == *layer);
        let ghost audio1 = string_set(audio@);
        let ghost data1 = string_set(data@);
        match &layer.ref_id {
            Some(r) => {
                if layer.ty == 6 {
                    insert_string(audio, r);
                } else if layer.ty == 15 {
                    insert_string(data, r);
                }
            },
            None => {},
        }
        let ghost audio2 = string_set(audio@);
        let ghost data2 = string_set(data@);
        let mut nested_ok = true;
        match &layer.ref_id {
            Some(r) => {
                match find_asset(assets, r) {
                    Some(k) => {
                        match &assets[k].layers {
                            Some(sub) => {
                                nested_ok = collect_refs_rec(sub, assets, fuel - 1, audio, data);
                            },
                            None => {},
                        }
                    },
                    None => {},
                }
            },
            None => {},
        }
        if !nested_ok {
            assert(!expands_within(cur, assets@, fuel as nat));
            proof {
                if expands_within(layers@, assets@, fuel as nat) {
                    lemma_expands_prefix(layers@, assets@, fuel as nat, i + 1);
                }
            }
            return false;
        }
        proof {
            let own6 = if layer.ty == 6 && layer.ref_id is Some {
                set![layer.ref_id->0@]
            } else {
                Set::empty()
            };
            let own15 = if layer.ty == 15 && layer.ref_id is Some {
                set![layer.ref_id->0@]
            } else {
                Set::empty()
            };
            assert(audio2 == audio1 + own6);
            assert(data2 == data1 + own15);
            assert(string_set(audio@) == audio0 + refs_of_type(cur, assets@, 6, fuel as nat));
            assert(string_set(data@) == data0 + refs_of_type(cur, assets@, 15, fuel as nat));
        }
        i = i + 1;
    }
    assert(layers@.take(n as int) =~= layers@);
    true
}

/// Expansion within a bound holds for a list only if it holds for each prefix.
proof fn lemma_expands_prefix(layers: Seq<LayerLink>, assets: Seq<AssetEntry>, fuel: nat, k: int)
    requires
        0 <= k <= layers.len(),
        expands_within(layers, assets, fuel),
    ensures
        expands_within(layers.take(k), assets, fuel),
    decreases layers.len(),
{
    if k < layers.len() {
        lemma_expands_prefix(layers.drop_last(), assets, fuel, k);
        assert(layers.drop_last().take(k) =~= layers.take(k));
    } else {
        assert(layers.take(k) =~= layers);
    }
}

/// The asset ids referred to by audio layers and by data layers of an animation,
/// including layers nested in precompositions (an asset id names the last asset
/// with that id). The walk follows precompositions as deep as they nest; `None`
/// means they nest deeper than there are assets, which happens only when a
/// precomposition contains itself, directly or through others
/// (`nesting::lemma_deep_nesting_means_self_containment`).
pub fn collect_nonvisual_ref_ids(layers: &Vec<LayerLink>, assets: &Vec<AssetEntry>) -> (r: Option<
    (Vec<String>, Vec<String>),
>)
    requires
        assets@.len() < usize::MAX,
    ensures
        match r {
            Some((audio, data)) => expands_within(layers@, assets@, (assets@.len() + 1) as nat)
                && string_set(audio@) == refs_of_type(
                layers@,
                assets@,
                6,
                (assets@.len() + 1) as nat,
            ) && string_set(data@) == refs_of_type(
                layers@,
                assets@,
                15,
                (assets@.len() + 1) as nat,
            ),
            None => !expands_within(layers@, assets@, (assets@.len() + 1) as nat),
        },
{
    let mut audio: Vec<String> = Vec::new();
    let mut data: Vec<String> = Vec::new();
    assert(string_set(audio@) =~= Set::empty());
    assert(string_set(data@) =~= Set::empty());
    let ok = collect_refs_rec(layers, assets, assets.len() + 1, &mut audio, &mut data);
    if ok {
        assert(string_set(audio@) =~= refs_of_type(layers@, assets@, 6, (assets@.len() + 1) as nat));
        assert(string_set(data@) =~= refs_of_type(layers@, assets@, 15, (assets@.len() + 1) as nat));
        Some((audio, data))
    } else {
        None
    }
}

/// What base64 decoding with the standard alphabet and canonical padding gives
/// for a text, or `None` when the text is not such an encoding.
pub uninterp spec fn base64_standard_decode(input: Seq<char>) -> Option<Seq<u8>>;

/// Decodes `input` with `base64::engine::general_purpose::STANDARD`
/// (`Engine::decode`). The contract claims only that the result is a function of
/// the input text, named `base64_standard_decode`; which texts decode, and to
/// what, is left to that crate.
#[verifier::external_body]
fn decode_base64_standard(input: &str) -> (r: Option<Vec<u8>>)
    ensures
        match r {
            Some(bytes) => base64_standard_decode(input@) == Some(bytes@),
            None => base64_standard_decode(input@) is None,
        },
{
    match base64::engine::general_purpose::STANDARD.decode(input) {
        Ok(bytes) => Some(bytes),
        Err(_) => None,
    }
}

/// Where the bytes of an asset come from.
#[derive(Debug, Clone, PartialEq)]
pub enum AssetSource {
    /// A base64 data URI, decoded (`None` when the payload is not valid base64).
    Embedded(Option<Vec<u8>>),
    /// A file: first the preferred path, then the plain file name.
    Files { preferred: String, fallback: String },
    /// The asset names no file.
    Missing,
}

/// The position of the first comma in a character sequence.
pub open spec fn first_comma(s: Seq<char>) -> int
    recommends
        s.contains(','),
{
    choose|i: int| 0 <= i < s.len() && s[i] == ',' && forall|j: int| 0 <= j < i ==> s[j] != ','
}

/// An asset is embedded when its `p` is a data URI that contains `;base64,`;
/// the payload is everything after the first comma.
pub open spec fn is_embedded(p: Seq<char>) -> bool {
    starts_with_seq(p, "data:"@) && contains_seq(p, ";base64,"@)
}

/// Finds the first comma of a string known to contain one.
fn find_first_comma(s: &str) -> (r: usize)
    requires
        s@.contains(','),
    ensures
        r < s@.len(),
        s@[r as int] == ',',
        forall|j: int| 0 <= j < r ==> s@[j] != ',',
        r == first_comma(s@),
{
    let n = s.unicode_len();
    let mut i: usize = 0;
    while i < n
        invariant
            n == s@.len(),
            i <= n,
            s@.contains(','),
            forall|j: int| 0 <= j < i ==> s@[j] != ',',
        decreases n - i,
    {
        if s.get_char(i) == ',' {
            let ghost c = first_comma(s@);
            assert(c == i as int) by {
                if c < i {
                }
                if c > i {
                }
            }
            return i;
        }
        i = i + 1;
    }
    assert(false);
    0
}

/// Every text that contains `;base64,` contains a comma.
proof fn lemma_base64_marker_has_comma(p: Seq<char>)
    requires
        contains_seq(p, ";base64,"@),
    ensures
        p.contains(','),
{
    reveal_strlit(";base64,");
    let i = choose|i: int| crate::strings::occurs_at(p, ";base64,"@, i);
    assert(p.subrange(i, i + 8)[7] == ',');
    assert(p[i + 7] == ',');
}

/// Decides where the bytes of an asset are read from: a data URI with a base64
/// payload is decoded here; otherwise the file `u` + `p` is tried first (just
/// `p` when `u` is absent or empty) and then `p` alone.
pub fn asset_source(u: Option<&str>, p: Option<&str>) -> (r: AssetSource)
    ensures
        match p {
            None => r == AssetSource::Missing,
            Some(p) => if is_embedded(p@) {
                match r {
                    AssetSource::Embedded(decoded) => {
                        let payload = p@.skip(first_comma(p@) + 1);
                        match decoded {
                            Some(b) => base64_standard_decode(payload) == Some(b@),
                            None => base64_standard_decode(payload) is None,
                        }
                    },
                    _ => false,
                }
            } else {
                match r {
                    AssetSource::Files { preferred, fallback } => fallback@ == p@ && preferred@ == (
                    match u {
                        Some(u) => if u@.len() > 0 {
                            u@ + p@
                        } else {
                            p@
                        },
                        None => p@,
                    }),
                    _ => false,
                }
            },
        },
{
    let p = match p {
        Some(p) => p,
        None => return AssetSource::Missing,
    };
    if str_starts_with(p, "data:") && str_contains(p, ";base64,") {
        proof {
            lemma_base64_marker_has_comma(p@);
        }
        let comma = find_first_comma(p);
        let n = p.unicode_len();
        let payload = p.substring_char(comma + 1, n);
        assert(payload@ =~= p@.skip(first_comma(p@) + 1));
        return AssetSource::Embedded(decode_base64_standard(payload));
    }
    let preferred = match u {
        Some(u) => {
            if u.unicode_len() > 0 {
                String::from_str(u).concat(p)
            } else {
                String::from_str(p)
            }
        },
        None => String::from_str(p),
    };
    AssetSource::Files { preferred, fallback: String::from_str(p) }
}

#[verifier::external_type_specification]
#[verifier::external_body]
pub struct ExJsonValue(serde_json::Value);

/// Whether a byte string is one JSON document that `serde_json` accepts.
pub uninterp spec fn json_document_valid(bytes: Seq<u8>) -> bool;

/// Parses a JSON document with `serde_json::from_slice::<serde_json::Value>`.
/// The contract claims only that parsing succeeds exactly for the byte strings
/// named by `json_document_valid`; the parsed value is opaque here.
#[verifier::external_body]
fn parse_json_document(bytes: &[u8]) -> (r: Option<serde_json::Value>)
    ensures
        r is Some <==> json_document_valid(bytes@),
{
    match serde_json::from_slice::<serde_json::Value>(bytes) {
        Ok(v) => Some(v),
        Err(_) => None,
    }
}

/// An asset registered as a data source.
#[derive(Debug, Clone)]
pub struct RuntimeDataSource {
    pub id: String,
    pub path: Option<String>,
    pub payload: Option<serde_json::Value>,
}

/// An asset registered as a sound.
#[derive(Debug, Clone)]
pub struct RuntimeSoundAsset {
    pub id: String,
    pub path: Option<String>,
    pub byte_len: usize,
}

/// Registers a data source: its payload is the asset's bytes parsed as JSON,
/// absent when there are no bytes or they are not a JSON document.
pub fn data_source_record(id: &String, path: Option<String>, bytes: &Option<Vec<u8>>) -> (r:
    RuntimeDataSource)
    ensures
        r.id@ == id@,
        r.path == path,
        match bytes {
            Some(b) => r.payload is Some <==> json_document_valid(b@),
            None => r.payload is None,
        },
{
    let payload = match bytes {
        Some(b) => parse_json_document(b.as_slice()),
        None => None,
    };
    RuntimeDataSource { id: id.clone(), path, payload }
}

/// Registers a sound asset with the number of bytes it was loaded with (0 when
/// none were).
pub fn sound_asset_record(id: &String, path: Option<String>, bytes: &Option<Vec<u8>>) -> (r:
    RuntimeSoundAsset)
    ensures
        r.id@ == id@,
        r.path == path,
        r.byte_len == match bytes {
            Some(b) => b@.len(),
            None => 0,
        },
{
    let byte_len = match bytes {
        Some(b) => b.len(),
        None => 0,
    };
    RuntimeSoundAsset { id: id.clone(), path, byte_len }
}

} // verus!
