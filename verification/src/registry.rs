use vstd::prelude::*;
use crate::assets::{
    asset_class, asset_path, asset_type_code, collect_nonvisual_ref_ids, data_source_record,
    expands_within, json_document_valid, opt_view, refs_of_type, sound_asset_record,
    spec_asset_class, spec_asset_path, spec_asset_type_code, string_set, AssetClass, AssetEntry,
    LayerLink, RuntimeDataSource, RuntimeSoundAsset,
};
use crate::model::ImageSource;
use crate::names::NameMap;
use crate::strings::str_equals;

verus! {

/// The view of an optional string.
pub open spec fn opt_string_view(s: Option<String>) -> Option<Seq<char>> {
    match s {
        Some(s) => Some(s@),
        None => None,
    }
}

/// The path of an asset entry, as `asset_path` computes it.
pub open spec fn entry_path(a: AssetEntry) -> Option<Seq<char>> {
    spec_asset_path(opt_string_view(a.u), opt_string_view(a.p))
}

/// What an asset is registered as, given the ids that audio layers and data
/// layers refer to.
pub open spec fn class_of(a: AssetEntry, audio: Set<Seq<char>>, data: Set<Seq<char>>) -> AssetClass {
    spec_asset_class(data.contains(a.id@), audio.contains(a.id@), spec_asset_type_code(a.t), entry_path(a))
}

/// Whether loading an asset with the given bytes adds an entry to the map of
/// class `c`: assets of that class do, except images that have no bytes.
pub open spec fn registers(
    a: AssetEntry,
    bytes: Option<Vec<u8>>,
    audio: Set<Seq<char>>,
    data: Set<Seq<char>>,
    c: AssetClass,
) -> bool {
    class_of(a, audio, data) == c && (c == AssetClass::Image ==> bytes is Some)
}

/// The last of the first `n` assets that has id `k` and adds an entry to the map
/// of class `c`.
pub open spec fn last_registered(
    assets: Seq<AssetEntry>,
    bytes: Seq<Option<Vec<u8>>>,
    audio: Set<Seq<char>>,
    data: Set<Seq<char>>,
    c: AssetClass,
    k: Seq<char>,
    n: int,
) -> Option<int>
    decreases n,
{
    if n <= 0 {
        None
    } else if assets[n - 1].id@ == k && registers(assets[n - 1], bytes[n - 1], audio, data, c) {
        Some(n - 1)
    } else {
        last_registered(assets, bytes, audio, data, c, k, n - 1)
    }
}

/// A data-source entry records asset `a` loaded with `bytes`.
pub open spec fn data_record_of(r: RuntimeDataSource, a: AssetEntry, bytes: Option<Vec<u8>>) -> bool {
    &&& r.id@ == a.id@
    &&& opt_string_view(r.path) == entry_path(a)
    &&& match bytes {
        Some(b) => r.payload is Some <==> json_document_valid(b@),
        None => r.payload is None,
    }
}

/// A sound entry records asset `a` loaded with `bytes`.
pub open spec fn sound_record_of(r: RuntimeSoundAsset, a: AssetEntry, bytes: Option<Vec<u8>>) -> bool {
    &&& r.id@ == a.id@
    &&& opt_string_view(r.path) == entry_path(a)
    &&& r.byte_len == match bytes {
        Some(b) => b@.len(),
        None => 0,
    }
}

/// An image entry holds the bytes it was loaded with.
pub open spec fn image_record_of(r: ImageSource, bytes: Option<Vec<u8>>) -> bool {
    match (r, bytes) {
        (ImageSource::Data(d), Some(b)) => d@ == b@,
        _ => false,
    }
}

/// The assets of an animation, by id: images with their bytes, data sources and
/// sounds.
pub struct AssetRegistry {
    pub images: NameMap<ImageSource>,
    pub data_sources: NameMap<RuntimeDataSource>,
    pub sound_assets: NameMap<RuntimeSoundAsset>,
}

/// The image map holds, under each id, the bytes of the last of the first `n`
/// assets registered as an image under that id, and nothing else.
pub open spec fn images_match(
    m: Map<Seq<char>, ImageSource>,
    assets: Seq<AssetEntry>,
    bytes: Seq<Option<Vec<u8>>>,
    audio: Set<Seq<char>>,
    data: Set<Seq<char>>,
    n: int,
) -> bool {
    forall|k: Seq<char>|
        #![trigger m.contains_key(k)]
        match last_registered(assets, bytes, audio, data, AssetClass::Image, k, n) {
            Some(j) => m.contains_key(k) && image_record_of(m[k], bytes[j]),
            None => !m.contains_key(k),
        }
}

/// The data-source map holds, under each id, the record of the last of the first
/// `n` assets registered as a data source under that id, and nothing else.
pub open spec fn data_sources_match(
    m: Map<Seq<char>, RuntimeDataSource>,
    assets: Seq<AssetEntry>,
    bytes: Seq<Option<Vec<u8>>>,
    audio: Set<Seq<char>>,
    data: Set<Seq<char>>,
    n: int,
) -> bool {
    forall|k: Seq<char>|
        #![trigger m.contains_key(k)]
        match last_registered(assets, bytes, audio, data, AssetClass::DataSource, k, n) {
            Some(j) => m.contains_key(k) && data_record_of(m[k], assets[j], bytes[j]),
            None => !m.contains_key(k),
        }
}

/// The sound map holds, under each id, the record of the last of the first `n`
/// assets registered as a sound under that id, and nothing else.
pub open spec fn sounds_match(
    m: Map<Seq<char>, RuntimeSoundAsset>,
    assets: Seq<AssetEntry>,
    bytes: Seq<Option<Vec<u8>>>,
    audio: Set<Seq<char>>,
    data: Set<Seq<char>>,
    n: int,
) -> bool {
    forall|k: Seq<char>|
        #![trigger m.contains_key(k)]
        match last_registered(assets, bytes, audio, data, AssetClass::Sound, k, n) {
            Some(j) => m.contains_key(k) && sound_record_of(m[k], assets[j], bytes[j]),
            None => !m.contains_key(k),
        }
}

/// The registry holds, in each class, the entries of the first `n` assets.
pub open spec fn registry_matches(
    reg: AssetRegistry,
    assets: Seq<AssetEntry>,
    bytes: Seq<Option<Vec<u8>>>,
    audio: Set<Seq<char>>,
    data: Set<Seq<char>>,
    n: int,
) -> bool {
    &&& images_match(reg.images@, assets, bytes, audio, data, n)
    &&& data_sources_match(reg.data_sources@, assets, bytes, audio, data, n)
    &&& sounds_match(reg.sound_assets@, assets, bytes, audio, data, n)
}

/// Registering asset `i` leaves the last registered asset of every other id and
/// class as it was, and makes asset `i` the last one of its own id in every
/// class it registers in.
proof fn lemma_last_registered_step(
    assets: Seq<AssetEntry>,
    bytes: Seq<Option<Vec<u8>>>,
    audio: Set<Seq<char>>,
    data: Set<Seq<char>>,
    c: AssetClass,
    k: Seq<char>,
    i: int,
)
    requires
        0 <= i,
    ensures
        last_registered(assets, bytes, audio, data, c, k, i + 1) == if assets[i].id@ == k
            && registers(assets[i], bytes[i], audio, data, c) {
            Some(i)
        } else {
            last_registered(assets, bytes, audio, data, c, k, i)
        },
{
}

/// Registering asset `i` keeps the registry matching the assets so far.
proof fn lemma_registry_step(
    old_reg: AssetRegistry,
    new_reg: AssetRegistry,
    assets: Seq<AssetEntry>,
    bytes: Seq<Option<Vec<u8>>>,
    audio: Set<Seq<char>>,
    data: Set<Seq<char>>,
    i: int,
)
    requires
        0 <= i < assets.len(),
        i < bytes.len(),
        registry_matches(old_reg, assets, bytes, audio, data, i),
        ({
            let a = assets[i];
            let b = bytes[i];
            let id = a.id@;
            &&& if registers(a, b, audio, data, AssetClass::DataSource) {
                new_reg.data_sources@ == old_reg.data_sources@.insert(id, new_reg.data_sources@[id])
                    && data_record_of(new_reg.data_sources@[id], a, b)
            } else {
                new_reg.data_sources@ == old_reg.data_sources@
            }
            &&& if registers(a, b, audio, data, AssetClass::Sound) {
                new_reg.sound_assets@ == old_reg.sound_assets@.insert(id, new_reg.sound_assets@[id])
                    && sound_record_of(new_reg.sound_assets@[id], a, b)
            } else {
                new_reg.sound_assets@ == old_reg.sound_assets@
            }
            &&& if registers(a, b, audio, data, AssetClass::Image) {
                new_reg.images@ == old_reg.images@.insert(id, new_reg.images@[id]) && image_record_of(
                    new_reg.images@[id],
                    b,
                )
            } else {
                new_reg.images@ == old_reg.images@
            }
        }),
    ensures
        registry_matches(new_reg, assets, bytes, audio, data, i + 1),
{
    let id = assets[i].id@;
    let om = old_reg.data_sources@;
    let nm = new_reg.data_sources@;
    assert forall|k: Seq<char>| #![trigger nm.contains_key(k)]
        match last_registered(assets, bytes, audio, data, AssetClass::DataSource, k, i + 1) {
            Some(j) => nm.contains_key(k) && data_record_of(nm[k], assets[j], bytes[j]),
            None => !nm.contains_key(k),
        } by {
        lemma_last_registered_step(assets, bytes, audio, data, AssetClass::DataSource, k, i);
        assert(om.contains_key(k) == om.contains_key(k));
        if k != id {
            assert(nm.contains_key(k) == om.contains_key(k));
            if om.contains_key(k) {
                assert(nm[k] == om[k]);
            }
        }
    }
    let os = old_reg.sound_assets@;
    let ns = new_reg.sound_assets@;
    assert forall|k: Seq<char>| #![trigger ns.contains_key(k)]
        match last_registered(assets, bytes, audio, data, AssetClass::Sound, k, i + 1) {
            Some(j) => ns.contains_key(k) && sound_record_of(ns[k], assets[j], bytes[j]),
            None => !ns.contains_key(k),
        } by {
        lemma_last_registered_step(assets, bytes, audio, data, AssetClass::Sound, k, i);
        assert(os.contains_key(k) == os.contains_key(k));
        if k != id {
            assert(ns.contains_key(k) == os.contains_key(k));
            if os.contains_key(k) {
                assert(ns[k] == os[k]);
            }
        }
    }
    let oi = old_reg.images@;
    let ni = new_reg.images@;
    assert forall|k: Seq<char>| #![trigger ni.contains_key(k)]
        match last_registered(assets, bytes, audio, data, AssetClass::Image, k, i + 1) {
            Some(j) => ni.contains_key(k) && image_record_of(ni[k], bytes[j]),
            None => !ni.contains_key(k),
        } by {
        lemma_last_registered_step(assets, bytes, audio, data, AssetClass::Image, k, i);
        assert(oi.contains_key(k) == oi.contains_key(k));
        if k != id {
            assert(ni.contains_key(k) == oi.contains_key(k));
            if oi.contains_key(k) {
                assert(ni[k] == oi[k]);
            }
        }
    }
    assert(images_match(ni, assets, bytes, audio, data, i + 1));
    assert(data_sources_match(nm, assets, bytes, audio, data, i + 1));
    assert(sounds_match(ns, assets, bytes, audio, data, i + 1));
}

/// Whether a list of strings holds one equal to `s`.
fn strings_contain(v: &Vec<String>, s: &str) -> (r: bool)
    ensures
        r == string_set(v@).contains(s@),
{
    let mut i: usize = 0;
    while i < v.len()
        invariant
            i <= v@.len(),
            forall|j: int| 0 <= j < i ==> v@[j]@ != s@,
        decreases v@.len() - i,
    {
        if str_equals(v[i].as_str(), s) {
            return true;
        }
        i = i + 1;
    }
    false
}

fn opt_str(s: &Option<String>) -> (r: Option<&str>)
    ensures
        opt_view(r) == opt_string_view(*s),
{
    match s {
        Some(s) => Some(s.as_str()),
        None => None,
    }
}

impl AssetRegistry {
    /// A registry without assets.
    pub fn new() -> (r: Self)
        ensures
            r.images@ == Map::<Seq<char>, ImageSource>::empty(),
            r.data_sources@ == Map::<Seq<char>, RuntimeDataSource>::empty(),
            r.sound_assets@ == Map::<Seq<char>, RuntimeSoundAsset>::empty(),
    {
        AssetRegistry { images: NameMap::new(), data_sources: NameMap::new(), sound_assets: NameMap::new() }
    }
}

/// What a data layer binds to: the path and parsed payload of the data source it
/// refers to.
#[derive(Debug, Clone)]
pub struct RuntimeDataBinding {
    pub layer_name: Option<String>,
    pub ref_id: Option<String>,
    pub source_path: Option<String>,
    pub payload: Option<serde_json::Value>,
}

/// Clones a parsed JSON payload (`<serde_json::Value as Clone>::clone`, which is
/// derived, inside the option). The contract claims that the clone is the same
/// value as the original.
#[verifier::external_body]
fn clone_payload(payload: &Option<serde_json::Value>) -> (r: Option<serde_json::Value>)
    ensures
        r == *payload,
{
    payload.clone()
}

fn clone_opt_string(s: &Option<String>) -> (r: Option<String>)
    ensures
        opt_string_view(r) == opt_string_view(*s),
{
    match s {
        Some(s) => Some(s.clone()),
        None => None,
    }
}

impl AssetRegistry {
    /// Sets the bytes of an image asset, replacing any image under that id.
    pub fn set_asset(&mut self, id: String, data: Vec<u8>)
        ensures
            final(self).images@ == old(self).images@.insert(id@, ImageSource::Data(data)),
            final(self).data_sources@ == old(self).data_sources@,
            final(self).sound_assets@ == old(self).sound_assets@,
    {
        self.images.insert(id, ImageSource::Data(data));
    }

    /// The binding of a data layer with the given name and reference: the path
    /// and payload of the data source it names, or neither when it names none.
    pub fn data_binding(&self, layer_name: Option<String>, ref_id: Option<String>) -> (r: RuntimeDataBinding)
        ensures
            r.layer_name == layer_name,
            r.ref_id == ref_id,
            match ref_id {
                Some(id) => if self.data_sources@.contains_key(id@) {
                    &&& opt_string_view(r.source_path) == opt_string_view(self.data_sources@[id@].path)
                    &&& r.payload == self.data_sources@[id@].payload
                } else {
                    r.source_path is None && r.payload is None
                },
                None => r.source_path is None && r.payload is None,
            },
    {
        let (source_path, payload) = match &ref_id {
            Some(id) => match self.data_sources.get(id.as_str()) {
                Some(source) => (clone_opt_string(&source.path), clone_payload(&source.payload)),
                None => (None, None),
            },
            None => (None, None),
        };
        RuntimeDataBinding { layer_name, ref_id, source_path, payload }
    }

    /// The path of the sound an audio layer refers to, if it names a sound asset
    /// that has one.
    pub fn sound_path(&self, ref_id: &Option<String>) -> (r: Option<String>)
        ensures
            match ref_id {
                Some(id) => if self.sound_assets@.contains_key(id@) {
                    opt_string_view(r) == opt_string_view(self.sound_assets@[id@].path)
                } else {
                    r is None
                },
                None => r is None,
            },
    {
        match ref_id {
            Some(id) => match self.sound_assets.get(id.as_str()) {
                Some(sound) => clone_opt_string(&sound.path),
                None => None,
            },
            None => None,
        }
    }
}

/// Registers the assets of an animation as loading it does. Each asset is
/// classified (a data layer refers to it, its type code is 3 or its path is a JSON
/// file: data source; else an audio layer refers to it or its path is an audio
/// file: sound; else image) and recorded under its id with the bytes it was
/// loaded with (`bytes[i]` for `assets[i]`); an image without bytes is not
/// recorded, and a later asset replaces an earlier one of the same class and id.
/// The ids that audio and data layers refer to are gathered through nested
/// precompositions; `None` means these nest deeper than there are assets, that
/// is, a precomposition contains itself.
pub fn register_assets(
    layers: &Vec<LayerLink>,
    assets: &Vec<AssetEntry>,
    bytes: Vec<Option<Vec<u8>>>,
) -> (r: Option<AssetRegistry>)
    requires
        assets@.len() < usize::MAX,
        bytes@.len() == assets@.len(),
    ensures
        r is None <==> !expands_within(layers@, assets@, (assets@.len() + 1) as nat),
        r matches Some(reg) ==> registry_matches(
            reg,
            assets@,
            bytes@,
            refs_of_type(layers@, assets@, 6, (assets@.len() + 1) as nat),
            refs_of_type(layers@, assets@, 15, (assets@.len() + 1) as nat),
            assets@.len() as int,
        ),
{
    let (audio_ids, data_ids) = match collect_nonvisual_ref_ids(layers, assets) {
        Some(ids) => ids,
        None => return None,
    };
    let ghost audio = string_set(audio_ids@);
    let ghost data = string_set(data_ids@);
    let ghost all_bytes = bytes@;
    let n = assets.len();
    // the bytes still to be handed out, last asset's first
    let mut rest: Vec<Option<Vec<u8>>> = Vec::new();
    let mut source = bytes;
    while source.len() > 0
        invariant
            source@.len() <= n,
            all_bytes.len() == n,
            rest@ == all_bytes.subrange(source@.len() as int, n as int).reverse(),
            source@ == all_bytes.subrange(0, source@.len() as int),
        decreases source@.len(),
    {
        let b = source.pop().unwrap();
        rest.push(b);
        assert(rest@ =~= all_bytes.subrange(source@.len() as int, n as int).reverse());
        assert(source@ =~= all_bytes.subrange(0, source@.len() as int));
    }
    assert(rest@ =~= all_bytes.reverse());
    let mut reg = AssetRegistry::new();
    let mut i: usize = 0;
    while i < n
        invariant
            n == assets@.len(),
            all_bytes.len() == n,
            i <= n,
            rest@ == all_bytes.subrange(i as int, n as int).reverse(),
            audio == string_set(audio_ids@),
            data == string_set(data_ids@),
            registry_matches(reg, assets@, all_bytes, audio, data, i as int),
        decreases n - i,
    {
        let a = &assets[i];
        let b = rest.pop().unwrap();
        assert(b == all_bytes[i as int]);
        assert(rest@ =~= all_bytes.subrange(i + 1, n as int).reverse());
        let path = asset_path(opt_str(&a.u), opt_str(&a.p));
        let class = asset_class(
            strings_contain(&data_ids, a.id.as_str()),
            strings_contain(&audio_ids, a.id.as_str()),
            asset_type_code(&a.t),
            match &path {
                Some(p) => Some(p.as_str()),
                None => None,
            },
        );
        assert(class == class_of(*a, audio, data));
        let ghost old_reg = reg;
        match class {
            AssetClass::DataSource => {
                let record = data_source_record(&a.id, path, &b);
                reg.data_sources.insert(a.id.clone(), record);
            },
            AssetClass::Sound => {
                let record = sound_asset_record(&a.id, path, &b);
                reg.sound_assets.insert(a.id.clone(), record);
            },
            AssetClass::Image => {
                match b {
                    Some(data) => {
                        reg.images.insert(a.id.clone(), ImageSource::Data(data));
                    },
                    None => {},
                }
            },
        }
        proof {
            lemma_registry_step(old_reg, reg, assets@, all_bytes, audio, data, i as int);
        }
        i = i + 1;
    }
    Some(reg)
}

} // verus!
