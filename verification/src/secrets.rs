//! Per-app secrets: set through the CLI, stored encrypted on the host that runs the
//! app, injected as env at container start. Never in the manifest, never in the
//! build context, never handed back out of the API.
//!
//! At rest they are sealed with XChaCha20-Poly1305 under a per-host master key. A
//! host without a key still works, but plainly says so in its files.
use vstd::prelude::*;

use chacha20poly1305::aead::{Aead, OsRng};
use chacha20poly1305::{AeadCore, KeyInit, XChaCha20Poly1305};

use crate::error::{ErrorView, HadesError};
use crate::hexa;
use crate::hexa::{hex, is_readable, unhex};
use crate::maps;
use crate::maps::TextMap;
use crate::names;
use crate::paths;
use crate::paths::join_path;
use crate::split;
use crate::text;
use crate::text::trimmed;
use crate::types::SecretsUpdate;
use crate::values;
use crate::values::clone_opt;

verus! {

/// The name that the master key goes by in the keychain.
pub const KEYCHAIN_SERVICE: &'static str = "hades-master-key";

/// What is on disk for one app: nonce and ciphertext in hexadecimal when encrypted,
/// the plain map otherwise.
#[derive(Debug)]
pub struct SecretFile {
    pub encrypted: bool,
    pub nonce: Option<String>,
    pub data: Option<String>,
    pub plain: Option<TextMap>,
}

/// The contents of a `SecretFile`.
pub struct SecretFileView {
    pub encrypted: bool,
    pub nonce: Option<Seq<char>>,
    pub data: Option<Seq<char>>,
    pub plain: Option<Map<Seq<char>, Seq<char>>>,
}

impl View for SecretFile {
    type V = SecretFileView;

    open spec fn view(&self) -> SecretFileView {
        SecretFileView {
            encrypted: self.encrypted,
            nonce: values::opt_view(self.nonce),
            data: values::opt_view(self.data),
            plain: match self.plain {
                Some(x) => Some(x@),
                None => None,
            },
        }
    }
}

impl Clone for SecretFile {
    fn clone(&self) -> (r: Self)
        ensures
            r@ == self@,
    {
        SecretFile {
            encrypted: self.encrypted,
            nonce: clone_opt(&self.nonce),
            data: clone_opt(&self.data),
            plain: match &self.plain {
                Some(x) => Some(x.clone()),
                None => None,
            },
        }
    }
}

/// The secrets of the apps on this host, and the key they are sealed with.
pub struct SecretStore {
    pub dir: String,
    pub key: Option<[u8; 32]>,
}

// ----------------------------------------------------------------------- sealing

/// What XChaCha20-Poly1305 encrypts a text to, under a key and a nonce.
pub uninterp spec fn sealed(key: Seq<u8>, nonce: Seq<u8>, plain: Seq<u8>) -> Option<Seq<u8>>;

/// What XChaCha20-Poly1305 decrypts a text to, if it is authentic under the key and
/// the nonce.
pub uninterp spec fn opened(key: Seq<u8>, nonce: Seq<u8>, data: Seq<u8>) -> Option<Seq<u8>>;

pub open spec fn opt_bytes(o: Option<Vec<u8>>) -> Option<Seq<u8>> {
    match o {
        Some(b) => Some(b@),
        None => None,
    }
}

/// The bytes that the cipher's counter of blocks reaches.
pub const CIPHER_REACH: u64 = 0x3f_ffff_ff80;

/// `XChaCha20Poly1305::encrypt`, a function of key, nonce and text. The nonce must have
/// 24 bytes. On every text that the block counter reaches it succeeds: the result has
/// the text's length and a tag of 16 bytes, and `decrypt` gives the text back from it.
#[verifier::external_body]
fn encrypt(key: &[u8; 32], nonce: &Vec<u8>, plain: &Vec<u8>) -> (r: Option<Vec<u8>>)
    requires
        nonce@.len() == 24,
        plain@.len() <= CIPHER_REACH,
    ensures
        opt_bytes(r) == sealed(key@, nonce@, plain@),
        r is Some,
        r matches Some(ct) ==> ct@.len() == plain@.len() + 16 && opened(key@, nonce@, ct@) == Some(
            plain@,
        ),
{
    XChaCha20Poly1305::new(key.into()).encrypt(nonce.as_slice().into(), plain.as_slice()).ok()
}

/// `XChaCha20Poly1305::decrypt`, a function of key, nonce and data. The nonce must
/// have 24 bytes, and the block counter must reach the data before its tag.
#[verifier::external_body]
fn decrypt(key: &[u8; 32], nonce: &Vec<u8>, data: &Vec<u8>) -> (r: Option<Vec<u8>>)
    requires
        nonce@.len() == 24,
        data@.len() <= CIPHER_REACH + 16,
    ensures
        opt_bytes(r) == opened(key@, nonce@, data@),
{
    XChaCha20Poly1305::new(key.into()).decrypt(nonce.as_slice().into(), data.as_slice()).ok()
}

/// `XChaCha20Poly1305::generate_nonce` from the operating system's randomness: 24
/// bytes. Which ones is chance.
#[verifier::external_body]
fn random_nonce() -> (r: Vec<u8>)
    ensures
        r@.len() == 24,
{
    XChaCha20Poly1305::generate_nonce(&mut OsRng).to_vec()
}

/// `rand::RngCore::fill_bytes` from the operating system's randomness. Which bytes
/// come is chance.
#[verifier::external_body]
fn random_key() -> (r: [u8; 32]) {
    let mut key = [0u8; 32];
    rand::RngCore::fill_bytes(&mut rand::rngs::OsRng, &mut key);
    key
}

// ------------------------------------------------------------------------- JSON

/// The JSON object that serde_json writes for a map of texts.
pub uninterp spec fn json_of_pairs(pairs: Seq<(Seq<char>, Seq<char>)>) -> Seq<u8>;

/// The pairs that serde_json reads from a JSON object of texts, by ascending key.
pub uninterp spec fn pairs_of_json(bytes: Seq<u8>) -> Option<Seq<(Seq<char>, Seq<char>)>>;

pub open spec fn opt_pairs(o: Option<Vec<(String, String)>>) -> Option<
    Seq<(Seq<char>, Seq<char>)>,
> {
    match o {
        Some(p) => Some(maps::pair_views(p@)),
        None => None,
    }
}

/// `serde_json::to_vec` of the map that the pairs make. What it writes is named;
/// where the keys ascend, `from_slice` reads the same pairs back from it.
#[verifier::external_body]
fn write_pairs(pairs: &Vec<(String, String)>) -> (r: Vec<u8>)
    ensures
        r@ == json_of_pairs(maps::pair_views(pairs@)),
        names::ascending(maps::pair_keys(maps::pair_views(pairs@))) ==> pairs_of_json(r@) == Some(
            maps::pair_views(pairs@),
        ),
{
    serde_json::to_vec(
        &pairs.iter().cloned().collect::<std::collections::BTreeMap<String, String>>(),
    ).unwrap()
}

/// `serde_json::from_slice` into a map of texts, given out by ascending key. What it
/// reads is named.
#[verifier::external_body]
fn read_pairs(bytes: &Vec<u8>) -> (r: Option<Vec<(String, String)>>)
    ensures
        opt_pairs(r) == pairs_of_json(bytes@),
{
    serde_json::from_slice::<std::collections::BTreeMap<String, String>>(bytes).ok().map(
        |m| m.into_iter().collect(),
    )
}

// ------------------------------------------------------------------------ files

pub open spec fn key_bytes(key: Option<[u8; 32]>) -> Option<Seq<u8>> {
    match key {
        Some(k) => Some(k@),
        None => None,
    }
}

/// The secrets that a file holds for someone with this key; none where it cannot be
/// read.
pub open spec fn loaded(key: Option<Seq<u8>>, f: SecretFileView) -> Map<Seq<char>, Seq<char>> {
    if !f.encrypted {
        match f.plain {
            Some(m) => m,
            None => Map::empty(),
        }
    } else if key is None || f.nonce is None || f.data is None {
        Map::empty()
    } else {
        match (hexa::unhex_value(f.nonce->0), hexa::unhex_value(f.data->0)) {
            (Some(nonce), Some(data)) => if data.len() > CIPHER_REACH + 16 {
                Map::empty()
            } else {
                match opened(key->0, nonce, data) {
                    Some(plain) => match pairs_of_json(plain) {
                        Some(pairs) => maps::map_of(pairs),
                        None => Map::empty(),
                    },
                    None => Map::empty(),
                }
            },
            _ => Map::empty(),
        }
    }
}

/// Can the file be looked into at all? Its hexadecimal texts must be readable, and
/// a nonce has 24 bytes.
pub open spec fn loadable(key: Option<Seq<u8>>, f: SecretFileView) -> bool {
    f.encrypted && key is Some && f.nonce is Some && f.data is Some ==> {
        &&& hexa::readable(f.nonce->0)
        &&& hexa::readable(f.data->0)
        &&& hexa::unhex_value(f.nonce->0) is Some && hexa::unhex_value(f.data->0) is Some
            ==> hexa::unhex_value(f.nonce->0)->0.len() == 24
    }
}

/// The file for a map, sealed with this nonce where there is a key.
pub open spec fn file_for(
    key: Option<Seq<u8>>,
    nonce: Seq<u8>,
    m: Map<Seq<char>, Seq<char>>,
    json: Seq<u8>,
) -> Option<SecretFileView> {
    match key {
        None => Some(
            SecretFileView { encrypted: false, nonce: None, data: None, plain: Some(m) },
        ),
        Some(k) => match sealed(k, nonce, json) {
            Some(ct) => Some(
                SecretFileView {
                    encrypted: true,
                    nonce: Some(hexa::hex_text(nonce)),
                    data: Some(hexa::hex_text(ct)),
                    plain: None,
                },
            ),
            None => None,
        },
    }
}

impl SecretStore {
    /// The store below a root directory.
    pub fn open(root: &str, key: Option<[u8; 32]>) -> (r: SecretStore)
        ensures
            r.dir@ == paths::joined_path(root@, "secrets"@),
            r.key == key,
    {
        SecretStore { dir: join_path(root, "secrets"), key }
    }

    pub fn encrypted(&self) -> (r: bool)
        ensures
            r == self.key is Some,
    {
        self.key.is_some()
    }

    /// Where an app's secrets are kept.
    pub fn path(&self, app: &str) -> (r: String)
        ensures
            r@ == paths::joined_path(self.dir@, app@ + ".json"@),
    {
        let file = app.to_owned().concat(".json");
        join_path(self.dir.as_str(), file.as_str())
    }

    /// Can the file be looked into?
    pub fn can_load(&self, file: &SecretFile) -> (r: bool)
        ensures
            r == loadable(key_bytes(self.key), file@),
    {
        match (&file.nonce, &file.data) {
            (Some(nonce), Some(data)) => {
                if !file.encrypted || self.key.is_none() {
                    return true;
                }
                if !is_readable(nonce.as_str()) || !is_readable(data.as_str()) {
                    return false;
                }
                match (unhex(nonce.as_str()), unhex(data.as_str())) {
                    (Some(n), Some(_)) => n.len() == 24,
                    _ => true,
                }
            },
            _ => true,
        }
    }

    /// The secrets in an app's file; without a file there are none.
    pub fn load(&self, file: Option<&SecretFile>) -> (r: TextMap)
        requires
            file matches Some(f) ==> loadable(key_bytes(self.key), f@),
        ensures
            r@ == match file {
                Some(f) => loaded(key_bytes(self.key), f@),
                None => Map::<Seq<char>, Seq<char>>::empty(),
            },
    {
        let file = match file {
            Some(f) => f,
            None => {
                return TextMap::new();
            },
        };
        if !file.encrypted {
            return match &file.plain {
                Some(m) => m.clone(),
                None => TextMap::new(),
            };
        }
        let key = match &self.key {
            Some(k) => k,
            None => {
                return TextMap::new();
            },
        };
        let (nonce, data) = match (&file.nonce, &file.data) {
            (Some(n), Some(d)) => (n, d),
            _ => {
                return TextMap::new();
            },
        };
        let nonce = unhex(nonce.as_str());
        let data = unhex(data.as_str());
        let (nonce, data) = match (nonce, data) {
            (Some(n), Some(d)) => (n, d),
            _ => {
                return TextMap::new();
            },
        };
        if data.len() as u64 > CIPHER_REACH + 16 {
            return TextMap::new();
        }
        match decrypt(key, &nonce, &data) {
            Some(plain) => match read_pairs(&plain) {
                Some(pairs) => TextMap::from_pairs(&pairs),
                None => TextMap::new(),
            },
            None => TextMap::new(),
        }
    }

    /// The file for an app's secrets, sealed with the given nonce where this host
    /// has a key. Whoever holds the same key reads the same secrets from it.
    pub fn seal(&self, map: &TextMap, nonce: &Vec<u8>) -> (r: Result<SecretFile, HadesError>)
        requires
            nonce@.len() == 24,
        ensures
            r is Ok <==> self.key is None || json_of_pairs(map.pair_list()).len() <= CIPHER_REACH,
            r matches Ok(f) ==> Some(f@) == file_for(
                key_bytes(self.key),
                nonce@,
                map@,
                json_of_pairs(map.pair_list()),
            ),
            r matches Ok(f) ==> loadable(key_bytes(self.key), f@) && loaded(
                key_bytes(self.key),
                f@,
            ) == map@,
            r matches Err(e) ==> e@ == ErrorView::Other("secret encryption failed"@),
    {
        match &self.key {
            Some(key) => {
                let pairs = map.pairs();
                let plain = write_pairs(&pairs);
                if plain.len() as u64 > CIPHER_REACH {
                    return Err(HadesError::Other("secret encryption failed".to_owned()));
                }
                match encrypt(key, nonce, &plain) {
                    Some(ct) => {
                        proof {
                            hexa::hex_reads_back(nonce@);
                            hexa::hex_reads_back(ct@);
                        }
                        Ok(
                            SecretFile {
                                encrypted: true,
                                nonce: Some(hex(nonce)),
                                data: Some(hex(&ct)),
                                plain: None,
                            },
                        )
                    },
                    None => Err(HadesError::Other("secret encryption failed".to_owned())),
                }
            },
            None => Ok(
                SecretFile { encrypted: false, nonce: None, data: None, plain: Some(map.clone()) },
            ),
        }
    }

    /// The file for an app's secrets, under a fresh nonce. Reading it back with the
    /// same key gives the same secrets.
    pub fn save(&self, map: &TextMap) -> (r: Result<SecretFile, HadesError>)
        ensures
            r is Ok <==> self.key is None || json_of_pairs(map.pair_list()).len() <= CIPHER_REACH,
            r matches Ok(f) ==> loadable(key_bytes(self.key), f@) && loaded(
                key_bytes(self.key),
                f@,
            ) == map@,
            r matches Ok(f) ==> exists|n: Seq<u8>|
                n.len() == 24 && Some(f@) == #[trigger] file_for(
                    key_bytes(self.key),
                    n,
                    map@,
                    json_of_pairs(map.pair_list()),
                ),
            r matches Err(e) ==> e@ == ErrorView::Other("secret encryption failed"@),
    {
        let nonce = random_nonce();
        self.seal(map, &nonce)
    }
}

// ------------------------------------------------------------------- master key

/// The key in what the keychain printed: 32 bytes in hexadecimal.
pub open spec fn key_in(printed: Seq<char>) -> Option<Seq<u8>> {
    match hexa::unhex_value(text::trim(printed)) {
        Some(b) => if b.len() == 32 {
            Some(b)
        } else {
            None
        },
        None => None,
    }
}

/// The master key that the keychain printed, if it is one.
pub fn stored_master_key(printed: &str) -> (r: Option<[u8; 32]>)
    requires
        hexa::readable(text::trim(printed@)),
    ensures
        key_bytes(r) == key_in(printed@),
{
    match unhex(trimmed(printed).as_str()) {
        Some(b) => {
            if b.len() != 32 {
                return None;
            }
            let mut key: [u8; 32] = [0u8; 32];
            let mut i: usize = 0;
            while i < 32
                invariant
                    i <= 32,
                    b@.len() == 32,
                    forall|j: int| 0 <= j < i ==> key@[j] == b@[j],
                decreases 32 - i,
            {
                key[i] = b[i];
                i += 1;
            }
            assert(key@ =~= b@);
            Some(key)
        },
        None => None,
    }
}

/// A new master key, and the arguments that put it into the keychain.
pub fn mint_master_key(user: Option<&str>) -> (r: ([u8; 32], Vec<String>))
    ensures
        split::views(r.1@) == add_key_args(user, r.0@),
{
    let key = random_key();
    let args = keychain_args(user, &key);
    (key, args)
}

/// The keychain command that stores a key for a user.
pub open spec fn add_key_args(user: Option<&str>, key: Seq<u8>) -> Seq<Seq<char>> {
    seq![
        "add-generic-password"@,
        "-a"@,
        match user {
            Some(u) => u@,
            None => "hades"@,
        },
        "-s"@,
        KEYCHAIN_SERVICE@,
        "-w"@,
        hexa::hex_text(key),
        "-U"@,
    ]
}

/// The arguments that put a key into the keychain.
pub fn keychain_args(user: Option<&str>, key: &[u8; 32]) -> (r: Vec<String>)
    ensures
        split::views(r@) == add_key_args(user, key@),
{
    let mut bytes: Vec<u8> = Vec::new();
    let mut i: usize = 0;
    while i < 32
        invariant
            i <= 32,
            bytes@.len() == i,
            forall|j: int| 0 <= j < i ==> bytes@[j] == key@[j],
        decreases 32 - i,
    {
        bytes.push(key[i]);
        i += 1;
    }
    assert(bytes@ =~= key@);
    let who = match user {
        Some(u) => u.to_owned(),
        None => "hades".to_owned(),
    };
    let mut args: Vec<String> = Vec::new();
    args.push("add-generic-password".to_owned());
    args.push("-a".to_owned());
    args.push(who);
    args.push("-s".to_owned());
    args.push(KEYCHAIN_SERVICE.to_owned());
    args.push("-w".to_owned());
    args.push(hex(&bytes));
    args.push("-U".to_owned());
    assert(split::views(args@) =~= add_key_args(user, key@));
    args
}

// ---------------------------------------------------------------------- updates

/// The map with these keys taken out.
pub open spec fn without_keys(m: Map<Seq<char>, Seq<char>>, keys: Seq<Seq<char>>) -> Map<
    Seq<char>,
    Seq<char>,
>
    decreases keys.len(),
{
    if keys.len() == 0 {
        m
    } else {
        without_keys(m, keys.drop_last()).remove(keys.last())
    }
}

/// The secrets after an update: what is set is put in, then what is unset taken out.
pub open spec fn updated(
    m: Map<Seq<char>, Seq<char>>,
    set: Map<Seq<char>, Seq<char>>,
    unset: Seq<Seq<char>>,
) -> Map<Seq<char>, Seq<char>> {
    without_keys(m.union_prefer_right(set), unset)
}

/// The secrets laid over a map: theirs win.
pub fn overlay(base: &mut TextMap, over: &TextMap)
    ensures
        final(base)@ == old(base)@.union_prefer_right(over@),
{
    let ghost m0 = base@;
    let pairs = over.pairs();
    let ghost p = maps::pair_views(pairs@);
    let mut i: usize = 0;
    assert(p.take(0) =~= Seq::empty());
    assert(m0.union_prefer_right(maps::map_of(p.take(0))) =~= m0);
    while i < pairs.len()
        invariant
            i <= pairs.len(),
            p == maps::pair_views(pairs@),
            base@ == m0.union_prefer_right(maps::map_of(p.take(i as int))),
        decreases pairs.len() - i,
    {
        assert(p.take(i + 1).drop_last() =~= p.take(i as int));
        assert(p.take(i + 1).last() == (pairs@[i as int].0@, pairs@[i as int].1@));
        base.insert(pairs[i].0.clone(), pairs[i].1.clone());
        assert(base@ =~= m0.union_prefer_right(maps::map_of(p.take(i + 1))));
        i += 1;
    }
    assert(p.take(i as int) =~= p);
}

/// Set and unset secrets.
pub fn apply_update(map: &mut TextMap, update: &SecretsUpdate)
    ensures
        final(map)@ == updated(old(map)@, update@.set, update@.unset),
{
    overlay(map, &update.set);
    let ghost m1 = map@;
    let ghost keys = split::views(update.unset@);
    let mut i: usize = 0;
    assert(keys.take(0) =~= Seq::empty());
    while i < update.unset.len()
        invariant
            i <= update.unset@.len(),
            keys == split::views(update.unset@),
            map@ == without_keys(m1, keys.take(i as int)),
        decreases update.unset@.len() - i,
    {
        assert(keys.take(i + 1).drop_last() =~= keys.take(i as int));
        assert(keys.take(i + 1).last() == update.unset@[i as int]@);
        map.remove(update.unset[i].as_str());
        i += 1;
    }
    assert(keys.take(i as int) =~= keys);
}

// ------------------------------------------------------------------------- laws

/// Taking keys out takes out exactly those.
pub proof fn lemma_without_keys(
    m: Map<Seq<char>, Seq<char>>,
    keys: Seq<Seq<char>>,
    k: Seq<char>,
)
    ensures
        without_keys(m, keys).dom().contains(k) <==> m.dom().contains(k) && !keys.contains(k),
        without_keys(m, keys).dom().contains(k) ==> without_keys(m, keys)[k] == m[k],
    decreases keys.len(),
{
    if keys.len() > 0 {
        let front = keys.drop_last();
        lemma_without_keys(m, front, k);
        if keys.contains(k) {
            let i = choose|i: int| 0 <= i < keys.len() && keys[i] == k;
            if i < front.len() {
                assert(front[i] == k);
            }
        }
        if front.contains(k) {
            let i = choose|i: int| 0 <= i < front.len() && front[i] == k;
            assert(keys[i] == k);
        }
        if k == keys.last() {
            assert(keys[keys.len() - 1] == k);
        }
    }
}

/// After an update, a secret that was unset is gone, one that was set has its new
/// value, and every other is as it was.
pub proof fn updates_do_what_they_say(
    m: Map<Seq<char>, Seq<char>>,
    set: Map<Seq<char>, Seq<char>>,
    unset: Seq<Seq<char>>,
    k: Seq<char>,
)
    ensures
        ({
            let after = updated(m, set, unset);
            &&& unset.contains(k) ==> !after.dom().contains(k)
            &&& !unset.contains(k) && set.dom().contains(k) ==> after.dom().contains(k) && after[k]
                == set[k]
            &&& !unset.contains(k) && !set.dom().contains(k) ==> (after.dom().contains(k)
                <==> m.dom().contains(k)) && (m.dom().contains(k) ==> after[k] == m[k])
        }),
{
    lemma_without_keys(m.union_prefer_right(set), unset, k);
}

/// An encrypted file never holds its secrets in the plain field, and without the
/// key it tells nothing.
pub proof fn without_the_key_a_file_tells_nothing(
    key: Seq<u8>,
    nonce: Seq<u8>,
    map: Map<Seq<char>, Seq<char>>,
    json: Seq<u8>,
    f: SecretFileView,
)
    requires
        file_for(Some(key), nonce, map, json) == Some(f),
    ensures
        f.encrypted,
        f.plain is None,
        loaded(None, f) == Map::<Seq<char>, Seq<char>>::empty(),
{
}

/// The key that is put into the keychain is the one that is read back from it, whatever white
/// space the keychain prints around it.
pub proof fn keys_are_read_back_from_the_keychain(
    user: Option<&str>,
    key: Seq<u8>,
    before: Seq<char>,
    after: Seq<char>,
)
    requires
        key.len() == 32,
        forall|i: int| 0 <= i < before.len() ==> text::is_space(#[trigger] before[i]),
        forall|i: int| 0 <= i < after.len() ==> text::is_space(#[trigger] after[i]),
    ensures
        key_in(before + add_key_args(user, key)[6] + after) == Some(key),
        add_key_args(user, key)[5] == "-w"@,
        user matches Some(u) ==> add_key_args(user, key)[2] == u@,
{
    let hex = add_key_args(user, key)[6];
    hexa::hex_reads_back(key);
    hexa::lemma_hex_plain(key);
    assert(!text::is_space(hex[0]) && !text::is_space(hex[hex.len() - 1]));
    text::lemma_trim_around(before, hex, after);
}

/// The secrets of different apps are kept in different files.
pub proof fn secrets_are_kept_apart(dir: Seq<char>, a: Seq<char>, b: Seq<char>)
    requires
        a.len() > 0 && a[0] != '/',
        b.len() > 0 && b[0] != '/',
        paths::joined_path(dir, a + ".json"@) == paths::joined_path(dir, b + ".json"@),
    ensures
        a == b,
{
    let (x, y) = (paths::joined_path(dir, a + ".json"@), paths::joined_path(dir, b + ".json"@));
    let end = ".json"@;
    assert((a + end)[0] == a[0] && (b + end)[0] == b[0]);
    let head = x.len() - (a + end).len();
    assert(x.skip(head) =~= a + end);
    assert(y.skip(head) =~= b + end);
    assert((a + end).take(a.len() as int) =~= a);
    assert((b + end).take(a.len() as int) =~= b);
}

} // verus!
