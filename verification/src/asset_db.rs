//! The editor's asset database: assets with their tags, indices by kind,
//! by tag and by search term, searching, statistics, and the browser's
//! filters.
//!
//! Each index is a list of entries, one per key, in the order the keys
//! first appeared; an entry lists asset identifiers in the order they
//! were added.

use vstd::prelude::*;
use std::collections::HashMap;
use crate::assets::{AssetType, AssetStats, TypeStats, size_text, size_label, asset_type_name};
use crate::text::{owned, equals_str, to_lowercase, lowercase_of};
use crate::lines::chars_of;

verus! {

broadcast use vstd::string::group_string_axioms;

/// Details recorded when an asset is imported.
#[derive(Debug)]
pub struct AssetMetadata {
    pub imported_at: u64,
    pub modified_at: u64,
    pub import_settings: HashMap<String, String>,
    pub dimensions: Option<(u32, u32)>,
    /// Length of audio or video, as `f32` bits.
    pub duration_bits: Option<u32>,
    pub properties: HashMap<String, String>,
}

impl Clone for AssetMetadata {
    fn clone(&self) -> (r: Self)
        ensures
            r.imported_at == self.imported_at,
            r.modified_at == self.modified_at,
            r.dimensions == self.dimensions,
            r.duration_bits == self.duration_bits,
    {
        AssetMetadata {
            imported_at: self.imported_at,
            modified_at: self.modified_at,
            import_settings: self.import_settings.clone(),
            dimensions: self.dimensions,
            duration_bits: self.duration_bits,
            properties: self.properties.clone(),
        }
    }
}

/// An asset of a project.
#[derive(Debug, Clone)]
pub struct GameAsset {
    /// Unique identifier (a UUID as a 128-bit integer).
    pub id: u128,
    /// File name without extension.
    pub name: String,
    /// Full file path.
    pub path: String,
    pub asset_type: AssetType,
    /// File size in bytes.
    pub size: u64,
    pub metadata: AssetMetadata,
    pub tags: Vec<String>,
}

/// The views of a list of strings.
pub open spec fn texts(v: Seq<String>) -> Seq<Seq<char>> {
    v.map_values(|s: String| s@)
}

/// `s` with every occurrence of `x` taken out.
pub open spec fn without_text(s: Seq<Seq<char>>, x: Seq<char>) -> Seq<Seq<char>>
    decreases s.len(),
{
    if s.len() == 0 {
        s
    } else {
        let rest = without_text(s.drop_last(), x);
        if s.last() == x {
            rest
        } else {
            rest.push(s.last())
        }
    }
}

/// `s` with every occurrence of `id` taken out.
pub open spec fn without_id(s: Seq<u128>, id: u128) -> Seq<u128>
    decreases s.len(),
{
    if s.len() == 0 {
        s
    } else {
        let rest = without_id(s.drop_last(), id);
        if s.last() == id {
            rest
        } else {
            rest.push(s.last())
        }
    }
}

/// Some entry of the index has key `k`.
pub open spec fn has_key<K>(idx: Seq<(K, Seq<u128>)>, k: K) -> bool {
    exists|i: int| 0 <= i < idx.len() && (#[trigger] idx[i]).0 == k
}

/// The position of the entry with key `k`.
pub open spec fn key_at<K>(idx: Seq<(K, Seq<u128>)>, k: K) -> int {
    choose|i: int| 0 <= i < idx.len() && (#[trigger] idx[i]).0 == k
}

/// No two entries share a key.
pub open spec fn keys_distinct<K>(idx: Seq<(K, Seq<u128>)>) -> bool {
    forall|i: int, j: int|
        0 <= i < idx.len() && 0 <= j < idx.len() && (#[trigger] idx[i]).0 == (#[trigger] idx[j]).0 ==> i == j
}

/// The identifiers filed under `k` (none when there is no such entry).
pub open spec fn filed<K>(idx: Seq<(K, Seq<u128>)>, k: K) -> Seq<u128> {
    if has_key(idx, k) {
        idx[key_at(idx, k)].1
    } else {
        Seq::empty()
    }
}

/// The index with `id` filed under `k`: appended to the entry of `k`, or in
/// a new entry at the end.
pub open spec fn file_under<K>(idx: Seq<(K, Seq<u128>)>, k: K, id: u128) -> Seq<(K, Seq<u128>)> {
    if has_key(idx, k) {
        idx.update(key_at(idx, k), (k, idx[key_at(idx, k)].1.push(id)))
    } else {
        idx.push((k, seq![id]))
    }
}

/// The index with `id` filed under each key in turn.
pub open spec fn file_all<K>(idx: Seq<(K, Seq<u128>)>, ks: Seq<K>, id: u128) -> Seq<(K, Seq<u128>)>
    decreases ks.len(),
{
    if ks.len() == 0 {
        idx
    } else {
        file_under(file_all(idx, ks.drop_last(), id), ks.last(), id)
    }
}

/// The index with `id` taken out of the entry of `k`.
pub open spec fn unfile_at<K>(idx: Seq<(K, Seq<u128>)>, k: K, id: u128) -> Seq<(K, Seq<u128>)> {
    if has_key(idx, k) {
        idx.update(key_at(idx, k), (k, without_id(idx[key_at(idx, k)].1, id)))
    } else {
        idx
    }
}

/// The index with `id` taken out of the entry of each key in turn.
pub open spec fn unfile_all<K>(idx: Seq<(K, Seq<u128>)>, ks: Seq<K>, id: u128) -> Seq<(K, Seq<u128>)>
    decreases ks.len(),
{
    if ks.len() == 0 {
        idx
    } else {
        unfile_at(unfile_all(idx, ks.drop_last(), id), ks.last(), id)
    }
}

/// The index with `id` taken out of every entry.
pub open spec fn unfile_everywhere<K>(idx: Seq<(K, Seq<u128>)>, id: u128) -> Seq<(K, Seq<u128>)> {
    idx.map_values(|e: (K, Seq<u128>)| (e.0, without_id(e.1, id)))
}

/// Some asset has identifier `id`.
pub open spec fn has_asset(assets: Seq<GameAsset>, id: u128) -> bool {
    exists|i: int| 0 <= i < assets.len() && (#[trigger] assets[i]).id == id
}

/// The position of the asset with identifier `id`.
pub open spec fn asset_at(assets: Seq<GameAsset>, id: u128) -> int {
    choose|i: int| 0 <= i < assets.len() && (#[trigger] assets[i]).id == id
}

/// No two assets share an identifier.
pub open spec fn ids_distinct(assets: Seq<GameAsset>) -> bool {
    forall|i: int, j: int|
        0 <= i < assets.len() && 0 <= j < assets.len() && (#[trigger] assets[i]).id == (#[trigger] assets[j]).id
            ==> i == j
}

/// The assets with `a` stored: in place of the asset with the same
/// identifier, or at the end.
pub open spec fn asset_put(assets: Seq<GameAsset>, a: GameAsset) -> Seq<GameAsset> {
    if has_asset(assets, a.id) {
        assets.update(asset_at(assets, a.id), a)
    } else {
        assets.push(a)
    }
}

/// The assets that `ids` name, in that order (identifiers without an
/// asset are skipped).
pub open spec fn resolve(ids: Seq<u128>, assets: Seq<GameAsset>) -> Seq<GameAsset>
    decreases ids.len(),
{
    if ids.len() == 0 {
        Seq::empty()
    } else {
        let rest = resolve(ids.drop_last(), assets);
        if has_asset(assets, ids.last()) {
            rest.push(assets[asset_at(assets, ids.last())])
        } else {
            rest
        }
    }
}

proof fn lemma_key_at<K>(idx: Seq<(K, Seq<u128>)>, k: K, i: int)
    requires
        keys_distinct(idx),
        0 <= i < idx.len(),
        idx[i].0 == k,
    ensures
        has_key(idx, k),
        key_at(idx, k) == i,
{
    assert(idx[i].0 == k);
    let j = key_at(idx, k);
    assert(idx[j].0 == k);
}

proof fn lemma_asset_at(assets: Seq<GameAsset>, id: u128, i: int)
    requires
        ids_distinct(assets),
        0 <= i < assets.len(),
        assets[i].id == id,
    ensures
        has_asset(assets, id),
        asset_at(assets, id) == i,
{
    assert(assets[i].id == id);
    let j = asset_at(assets, id);
    assert(assets[j].id == id);
}

proof fn lemma_file_under_distinct<K>(idx: Seq<(K, Seq<u128>)>, k: K, id: u128)
    requires
        keys_distinct(idx),
    ensures
        keys_distinct(file_under(idx, k, id)),
{
    let r = file_under(idx, k, id);
    if has_key(idx, k) {
        let p = key_at(idx, k);
        assert forall|i: int, j: int|
            0 <= i < r.len() && 0 <= j < r.len() && (#[trigger] r[i]).0 == (#[trigger] r[j]).0 implies i
            == j by {
            assert(r[i].0 == idx[i].0);
            assert(r[j].0 == idx[j].0);
        }
    } else {
        assert forall|i: int, j: int|
            0 <= i < r.len() && 0 <= j < r.len() && (#[trigger] r[i]).0 == (#[trigger] r[j]).0 implies i
            == j by {
            if i < idx.len() && j < idx.len() {
                assert(r[i] == idx[i]);
                assert(r[j] == idx[j]);
            } else if i < idx.len() {
                assert(r[i] == idx[i]);
            } else if j < idx.len() {
                assert(r[j] == idx[j]);
            }
        }
    }
}

/// The identifiers of a list, copied.
fn copy_ids(v: &Vec<u128>) -> (r: Vec<u128>)
    ensures
        r@ == v@,
{
    let mut r: Vec<u128> = Vec::new();
    let mut i: usize = 0;
    while i < v.len()
        invariant
            i <= v@.len(),
            r@ == v@.subrange(0, i as int),
        decreases v@.len() - i,
    {
        r.push(v[i]);
        i = i + 1;
    }
    assert(r@ =~= v@);
    r
}

/// The identifiers of a list other than `id`, in order.
fn ids_without(v: &Vec<u128>, id: u128) -> (r: Vec<u128>)
    ensures
        r@ == without_id(v@, id),
{
    let mut r: Vec<u128> = Vec::new();
    let mut i: usize = 0;
    while i < v.len()
        invariant
            i <= v@.len(),
            r@ == without_id(v@.subrange(0, i as int), id),
        decreases v@.len() - i,
    {
        assert(v@.subrange(0, i + 1).drop_last() == v@.subrange(0, i as int));
        if v[i] != id {
            r.push(v[i]);
        }
        i = i + 1;
    }
    assert(v@.subrange(0, i as int) == v@);
    r
}

/// An index keyed by asset kind, as keys and identifier lists.
pub open spec fn type_entries(idx: Seq<(AssetType, Vec<u128>)>) -> Seq<(AssetType, Seq<u128>)> {
    idx.map_values(|e: (AssetType, Vec<u128>)| (e.0, e.1@))
}

/// An index keyed by text, as keys and identifier lists.
pub open spec fn text_entries(idx: Seq<(String, Vec<u128>)>) -> Seq<(Seq<char>, Seq<u128>)> {
    idx.map_values(|e: (String, Vec<u128>)| (e.0@, e.1@))
}

fn type_pos(idx: &Vec<(AssetType, Vec<u128>)>, t: AssetType) -> (r: Option<usize>)
    ensures
        match r {
            Some(i) => i < idx@.len() && type_entries(idx@)[i as int].0 == t,
            None => !has_key(type_entries(idx@), t),
        },
{
    let mut i: usize = 0;
    while i < idx.len()
        invariant
            i <= idx@.len(),
            forall|j: int| 0 <= j < i ==> (#[trigger] idx@[j]).0 != t,
        decreases idx@.len() - i,
    {
        if idx[i].0 == t {
            return Some(i);
        }
        i = i + 1;
    }
    proof {
        if has_key(type_entries(idx@), t) {
            let j = key_at(type_entries(idx@), t);
            assert(idx@[j].0 == t);
        }
    }
    None
}

fn text_pos(idx: &Vec<(String, Vec<u128>)>, k: &String) -> (r: Option<usize>)
    ensures
        match r {
            Some(i) => i < idx@.len() && text_entries(idx@)[i as int].0 == k@,
            None => !has_key(text_entries(idx@), k@),
        },
{
    let mut i: usize = 0;
    while i < idx.len()
        invariant
            i <= idx@.len(),
            forall|j: int| 0 <= j < i ==> (#[trigger] idx@[j]).0@ != k@,
        decreases idx@.len() - i,
    {
        if idx[i].0 == *k {
            return Some(i);
        }
        i = i + 1;
    }
    proof {
        if has_key(text_entries(idx@), k@) {
            let j = key_at(text_entries(idx@), k@);
            assert(idx@[j].0@ == k@);
        }
    }
    None
}

fn file_type(idx: &mut Vec<(AssetType, Vec<u128>)>, t: AssetType, id: u128)
    requires
        keys_distinct(type_entries(old(idx)@)),
    ensures
        type_entries(final(idx)@) == file_under(type_entries(old(idx)@), t, id),
        keys_distinct(type_entries(final(idx)@)),
{
    let ghost before = type_entries(idx@);
    proof {
        lemma_file_under_distinct(before, t, id);
    }
    match type_pos(idx, t) {
        Some(i) => {
            proof {
                lemma_key_at(before, t, i as int);
            }
            let mut list = copy_ids(&idx[i].1);
            list.push(id);
            idx.set(i, (t, list));
            assert(type_entries(idx@) =~= file_under(before, t, id));
        },
        None => {
            let mut list: Vec<u128> = Vec::new();
            list.push(id);
            idx.push((t, list));
            assert(type_entries(idx@) =~= file_under(before, t, id));
        },
    }
}

fn file_text(idx: &mut Vec<(String, Vec<u128>)>, k: String, id: u128)
    requires
        keys_distinct(text_entries(old(idx)@)),
    ensures
        text_entries(final(idx)@) == file_under(text_entries(old(idx)@), k@, id),
        keys_distinct(text_entries(final(idx)@)),
{
    let ghost before = text_entries(idx@);
    proof {
        lemma_file_under_distinct(before, k@, id);
    }
    match text_pos(idx, &k) {
        Some(i) => {
            proof {
                lemma_key_at(before, k@, i as int);
            }
            let mut list = copy_ids(&idx[i].1);
            list.push(id);
            idx.set(i, (k, list));
            assert(text_entries(idx@) =~= file_under(before, k@, id));
        },
        None => {
            let ghost kv = k@;
            let mut list: Vec<u128> = Vec::new();
            list.push(id);
            idx.push((k, list));
            assert(text_entries(idx@) =~= file_under(before, kv, id));
        },
    }
}

fn unfile_type(idx: &mut Vec<(AssetType, Vec<u128>)>, t: AssetType, id: u128)
    requires
        keys_distinct(type_entries(old(idx)@)),
    ensures
        type_entries(final(idx)@) == unfile_at(type_entries(old(idx)@), t, id),
        keys_distinct(type_entries(final(idx)@)),
{
    let ghost before = type_entries(idx@);
    match type_pos(idx, t) {
        Some(i) => {
            proof {
                lemma_key_at(before, t, i as int);
            }
            let list = ids_without(&idx[i].1, id);
            idx.set(i, (t, list));
            assert(type_entries(idx@) =~= unfile_at(before, t, id));
            assert forall|a: int, b: int|
                0 <= a < idx@.len() && 0 <= b < idx@.len() && (#[trigger] type_entries(idx@)[a]).0
                    == (#[trigger] type_entries(idx@)[b]).0 implies a == b by {
                assert(type_entries(idx@)[a].0 == before[a].0);
                assert(type_entries(idx@)[b].0 == before[b].0);
            }
        },
        None => {},
    }
}

fn unfile_text(idx: &mut Vec<(String, Vec<u128>)>, k: &String, id: u128)
    requires
        keys_distinct(text_entries(old(idx)@)),
    ensures
        text_entries(final(idx)@) == unfile_at(text_entries(old(idx)@), k@, id),
        keys_distinct(text_entries(final(idx)@)),
{
    let ghost before = text_entries(idx@);
    match text_pos(idx, k) {
        Some(i) => {
            proof {
                lemma_key_at(before, k@, i as int);
            }
            let list = ids_without(&idx[i].1, id);
            let key = k.clone();
            idx.set(i, (key, list));
            assert(text_entries(idx@) =~= unfile_at(before, k@, id));
            assert forall|a: int, b: int|
                0 <= a < idx@.len() && 0 <= b < idx@.len() && (#[trigger] text_entries(idx@)[a]).0
                    == (#[trigger] text_entries(idx@)[b]).0 implies a == b by {
                assert(text_entries(idx@)[a].0 == before[a].0);
                assert(text_entries(idx@)[b].0 == before[b].0);
            }
        },
        None => {},
    }
}

fn unfile_text_everywhere(idx: &mut Vec<(String, Vec<u128>)>, id: u128)
    requires
        keys_distinct(text_entries(old(idx)@)),
    ensures
        text_entries(final(idx)@) == unfile_everywhere(text_entries(old(idx)@), id),
        keys_distinct(text_entries(final(idx)@)),
{
    let ghost before = text_entries(idx@);
    let mut i: usize = 0;
    while i < idx.len()
        invariant
            i <= idx@.len(),
            idx@.len() == before.len(),
            keys_distinct(before),
            forall|j: int| 0 <= j < i ==> #[trigger] text_entries(idx@)[j] == (before[j].0, without_id(before[j].1, id)),
            forall|j: int| i <= j < idx@.len() ==> #[trigger] text_entries(idx@)[j] == before[j],
        decreases idx@.len() - i,
    {
        let list = ids_without(&idx[i].1, id);
        let key = idx[i].0.clone();
        let ghost prev = idx@;
        assert(text_entries(prev)[i as int] == before[i as int]);
        idx.set(i, (key, list));
        assert forall|j: int| 0 <= j < idx@.len() && j != i implies text_entries(idx@)[j] == text_entries(
            prev,
        )[j] by {
            assert(idx@[j] == prev[j]);
        }
        assert(text_entries(idx@)[i as int] == (before[i as int].0, without_id(before[i as int].1, id)));
        assert forall|j: int| 0 <= j < i + 1 implies #[trigger] text_entries(idx@)[j] == (
            before[j].0,
            without_id(before[j].1, id),
        ) by {
            if j < i {
                assert(text_entries(prev)[j] == (before[j].0, without_id(before[j].1, id)));
            }
        }
        assert forall|j: int| i + 1 <= j < idx@.len() implies #[trigger] text_entries(idx@)[j]
            == before[j] by {
            assert(text_entries(prev)[j] == before[j]);
        }
        i = i + 1;
    }
    assert(text_entries(idx@) =~= unfile_everywhere(before, id));
    assert forall|a: int, b: int|
        0 <= a < idx@.len() && 0 <= b < idx@.len() && (#[trigger] text_entries(idx@)[a]).0
            == (#[trigger] text_entries(idx@)[b]).0 implies a == b by {
        assert(text_entries(idx@)[a].0 == before[a].0);
        assert(text_entries(idx@)[b].0 == before[b].0);
    }
}

impl GameAsset {
    /// The size as a label such as "512 B" or "1.5 KB".
    pub fn size_string(&self) -> (r: String)
        ensures
            r@ == size_text(self.size as nat),
    {
        size_label(self.size)
    }

    /// Adds a tag unless the asset has it already.
    pub fn add_tag(&mut self, tag: String)
        ensures
            final(self).id == old(self).id,
            final(self).name == old(self).name,
            final(self).asset_type == old(self).asset_type,
            final(self).size == old(self).size,
            final(self).path == old(self).path,
            final(self).metadata == old(self).metadata,
            texts(final(self).tags@) == if texts(old(self).tags@).contains(tag@) {
                texts(old(self).tags@)
            } else {
                texts(old(self).tags@).push(tag@)
            },
    {
        if !self.has_tag(tag.as_str()) {
            let ghost before = texts(self.tags@);
            self.tags.push(tag);
            assert(texts(self.tags@) =~= before.push(tag@));
        }
    }

    /// Takes every copy of a tag off the asset.
    pub fn remove_tag(&mut self, tag: &str)
        ensures
            final(self).id == old(self).id,
            final(self).name == old(self).name,
            final(self).asset_type == old(self).asset_type,
            final(self).size == old(self).size,
            final(self).path == old(self).path,
            final(self).metadata == old(self).metadata,
            texts(final(self).tags@) == without_text(texts(old(self).tags@), tag@),
    {
        let mut kept: Vec<String> = Vec::new();
        let mut old_tags: Vec<String> = Vec::new();
        std::mem::swap(&mut old_tags, &mut self.tags);
        let ghost all = texts(old_tags@);
        let mut i: usize = 0;
        while i < old_tags.len()
            invariant
                i <= old_tags@.len(),
                all == texts(old_tags@),
                texts(kept@) == without_text(all.subrange(0, i as int), tag@),
            decreases old_tags@.len() - i,
        {
            assert(all.subrange(0, i + 1).drop_last() == all.subrange(0, i as int));
            if !equals_str(&old_tags[i], tag) {
                let t = old_tags[i].clone();
                let ghost before = texts(kept@);
                kept.push(t);
                assert(texts(kept@) =~= before.push(all[i as int]));
            }
            i = i + 1;
        }
        assert(all.subrange(0, i as int) == all);
        self.tags = kept;
    }

    /// Whether the asset has a tag.
    pub fn has_tag(&self, tag: &str) -> (r: bool)
        ensures
            r == texts(self.tags@).contains(tag@),
    {
        let mut i: usize = 0;
        while i < self.tags.len()
            invariant
                i <= self.tags@.len(),
                forall|j: int| 0 <= j < i ==> self.tags@[j]@ != tag@,
            decreases self.tags@.len() - i,
        {
            if equals_str(&self.tags[i], tag) {
                assert(texts(self.tags@)[i as int] == tag@);
                return true;
            }
            i = i + 1;
        }
        proof {
            if texts(self.tags@).contains(tag@) {
                let j = choose|j: int| 0 <= j < texts(self.tags@).len() && texts(self.tags@)[j] == tag@;
                assert(self.tags@[j]@ == tag@);
            }
        }
        false
    }
}


/// The search terms of an asset: its name and its kind's label, lowercased.
pub open spec fn search_terms(a: GameAsset) -> Seq<Seq<char>> {
    seq![lowercase_of(a.name@), lowercase_of(asset_type_name(a.asset_type))]
}

/// The sizes of the assets added up.
pub open spec fn total_size_of(assets: Seq<GameAsset>) -> nat
    decreases assets.len(),
{
    if assets.len() == 0 {
        0
    } else {
        total_size_of(assets.drop_last()) + assets.last().size as nat
    }
}

/// How many assets are of kind `t`.
pub open spec fn kind_count(assets: Seq<GameAsset>, t: AssetType) -> nat
    decreases assets.len(),
{
    if assets.len() == 0 {
        0
    } else {
        kind_count(assets.drop_last(), t) + if assets.last().asset_type == t {
            1nat
        } else {
            0nat
        }
    }
}

/// The sizes of the assets of kind `t` added up.
pub open spec fn kind_size(assets: Seq<GameAsset>, t: AssetType) -> nat
    decreases assets.len(),
{
    if assets.len() == 0 {
        0
    } else {
        kind_size(assets.drop_last(), t) + if assets.last().asset_type == t {
            assets.last().size as nat
        } else {
            0nat
        }
    }
}

proof fn lemma_kind_size_bound(assets: Seq<GameAsset>, t: AssetType)
    ensures
        kind_size(assets, t) <= total_size_of(assets),
        kind_count(assets, t) <= assets.len(),
    decreases assets.len(),
{
    if assets.len() > 0 {
        lemma_kind_size_bound(assets.drop_last(), t);
    }
}

proof fn lemma_kind_absent(assets: Seq<GameAsset>, t: AssetType)
    requires
        kind_count(assets, t) == 0,
    ensures
        kind_size(assets, t) == 0,
    decreases assets.len(),
{
    if assets.len() > 0 {
        lemma_kind_absent(assets.drop_last(), t);
    }
}

proof fn lemma_total_prefix(assets: Seq<GameAsset>, i: int)
    requires
        0 <= i <= assets.len(),
    ensures
        total_size_of(assets.subrange(0, i)) <= total_size_of(assets),
    decreases assets.len() - i,
{
    if i < assets.len() {
        lemma_total_prefix(assets, i + 1);
        assert(assets.subrange(0, i + 1).drop_last() == assets.subrange(0, i));
    } else {
        assert(assets.subrange(0, i) == assets);
    }
}

/// Whether `h` contains `n` as a contiguous part.
pub open spec fn contains_text(h: Seq<char>, n: Seq<char>) -> bool {
    exists|i: int| 0 <= i && i + n.len() <= h.len() && #[trigger] h.subrange(i, i + n.len()) == n
}

/// Some result has identifier `id`.
pub open spec fn has_result(res: Seq<GameAsset>, id: u128) -> bool {
    exists|k: int| 0 <= k < res.len() && (#[trigger] res[k]).id == id
}

/// `res` followed by the assets `ids` name that it does not hold yet.
pub open spec fn add_new(res: Seq<GameAsset>, ids: Seq<u128>, assets: Seq<GameAsset>) -> Seq<GameAsset>
    decreases ids.len(),
{
    if ids.len() == 0 {
        res
    } else {
        let r = add_new(res, ids.drop_last(), assets);
        let id = ids.last();
        if has_asset(assets, id) && !has_result(r, id) {
            r.push(assets[asset_at(assets, id)])
        } else {
            r
        }
    }
}

/// `res` followed by the new assets of every entry whose term contains
/// `q` without being `q`, entry by entry.
pub open spec fn partial_matches(
    res: Seq<GameAsset>,
    entries: Seq<(Seq<char>, Seq<u128>)>,
    q: Seq<char>,
    assets: Seq<GameAsset>,
) -> Seq<GameAsset>
    decreases entries.len(),
{
    if entries.len() == 0 {
        res
    } else {
        let r = partial_matches(res, entries.drop_last(), q, assets);
        let e = entries.last();
        if contains_text(e.0, q) && e.0 != q {
            add_new(r, e.1, assets)
        } else {
            r
        }
    }
}

/// What a search for `query` finds: the assets filed under the lowercased
/// query, then those under terms that contain it.
pub open spec fn search_results(
    assets: Seq<GameAsset>,
    terms: Seq<(Seq<char>, Seq<u128>)>,
    query: Seq<char>,
) -> Seq<GameAsset> {
    let q = lowercase_of(query);
    partial_matches(resolve(filed(terms, q), assets), terms, q, assets)
}

/// The assets of kind `t`, in order.
pub open spec fn of_kind(s: Seq<GameAsset>, t: AssetType) -> Seq<GameAsset>
    decreases s.len(),
{
    if s.len() == 0 {
        s
    } else if s.last().asset_type == t {
        of_kind(s.drop_last(), t).push(s.last())
    } else {
        of_kind(s.drop_last(), t)
    }
}

/// The assets carrying tag `tag`, in order.
pub open spec fn tagged(s: Seq<GameAsset>, tag: Seq<char>) -> Seq<GameAsset>
    decreases s.len(),
{
    if s.len() == 0 {
        s
    } else if texts(s.last().tags@).contains(tag) {
        tagged(s.drop_last(), tag).push(s.last())
    } else {
        tagged(s.drop_last(), tag)
    }
}

/// Whether `hay` contains `needle`.
pub(crate) fn text_contains(hay: &String, needle: &String) -> (r: bool)
    ensures
        r == contains_text(hay@, needle@),
{
    let h = chars_of(hay.as_str());
    let n = chars_of(needle.as_str());
    if n.len() > h.len() {
        return false;
    }
    let hl = h.len();
    let limit = hl - n.len();
    let mut i: usize = 0;
    while i <= limit
        invariant
            h@ == hay@,
            n@ == needle@,
            hl == h@.len(),
            limit + n@.len() == h@.len(),
            forall|k: int| 0 <= k < i ==> #[trigger] h@.subrange(k, k + n@.len()) != n@,
        ensures
            forall|k: int| 0 <= k <= limit ==> #[trigger] h@.subrange(k, k + n@.len()) != n@,
        decreases limit + 1 - i,
    {
        let mut j: usize = 0;
        let mut same = true;
        while j < n.len()
            invariant
                i <= limit,
                hl == h@.len(),
                limit + n@.len() == h@.len(),
                j <= n@.len(),
                same == (forall|m: int| 0 <= m < j ==> h@[i + m] == n@[m]),
            decreases n@.len() - j,
        {
            if h[i + j] != n[j] {
                same = false;
            }
            j = j + 1;
        }
        if same {
            assert(h@.subrange(i as int, i + n@.len()) =~= n@);
            return true;
        }
        assert(h@.subrange(i as int, i + n@.len()) != n@) by {
            let m = choose|m: int| 0 <= m < n@.len() && h@[i + m] != n@[m];
            assert(h@.subrange(i as int, i + n@.len())[m] == h@[i + m]);
        }
        if i == limit {
            break;
        }
        i = i + 1;
    }
    proof {
        if contains_text(hay@, needle@) {
            let k = choose|k: int| 0 <= k && k + n@.len() <= h@.len() && #[trigger] h@.subrange(k, k + n@.len()) == n@;
            assert(k <= limit);
        }
    }
    false
}

fn has_result_id(res: &Vec<&GameAsset>, id: u128) -> (r: bool)
    ensures
        r == has_result(res@.map_values(|a: &GameAsset| *a), id),
{
    let ghost v = res@.map_values(|a: &GameAsset| *a);
    let mut k: usize = 0;
    while k < res.len()
        invariant
            k <= res@.len(),
            v == res@.map_values(|a: &GameAsset| *a),
            forall|m: int| 0 <= m < k ==> (#[trigger] v[m]).id != id,
        decreases res@.len() - k,
    {
        if res[k].id == id {
            assert(v[k as int].id == id);
            return true;
        }
        k = k + 1;
    }
    false
}

/// An added asset is then found under its identifier.
pub proof fn law_added_asset_is_found(assets: Seq<GameAsset>, a: GameAsset)
    requires
        ids_distinct(assets),
    ensures
        has_asset(asset_put(assets, a), a.id),
        asset_put(assets, a)[asset_at(asset_put(assets, a), a.id)] == a,
{
    let r = asset_put(assets, a);
    if has_asset(assets, a.id) {
        let p = asset_at(assets, a.id);
        assert(r[p].id == a.id);
        assert(ids_distinct(r)) by {
            assert forall|i: int, j: int|
                0 <= i < r.len() && 0 <= j < r.len() && (#[trigger] r[i]).id == (#[trigger] r[j]).id implies i
                == j by {
                assert(r[i].id == assets[i].id);
                assert(r[j].id == assets[j].id);
            }
        }
        lemma_asset_at(r, a.id, p);
    } else {
        let p = assets.len() as int;
        assert(r[p].id == a.id);
        assert(ids_distinct(r)) by {
            assert forall|i: int, j: int|
                0 <= i < r.len() && 0 <= j < r.len() && (#[trigger] r[i]).id == (#[trigger] r[j]).id implies i
                == j by {
                if i < assets.len() {
                    assert(r[i] == assets[i]);
                }
                if j < assets.len() {
                    assert(r[j] == assets[j]);
                }
            }
        }
        lemma_asset_at(r, a.id, p);
    }
}

proof fn lemma_without_absent(s: Seq<u128>, id: u128)
    requires
        !s.contains(id),
    ensures
        without_id(s, id) == s,
    decreases s.len(),
{
    if s.len() > 0 {
        assert(!s.drop_last().contains(id)) by {
            if s.drop_last().contains(id) {
                let k = choose|k: int| 0 <= k < s.drop_last().len() && s.drop_last()[k] == id;
                assert(s[k] == id);
            }
        }
        lemma_without_absent(s.drop_last(), id);
        assert(s.last() != id) by {
            assert(s[s.len() - 1] == s.last());
        }
        assert(s.drop_last().push(s.last()) == s);
    }
}

/// Removing an asset with a fresh identifier right after adding it gives
/// back the assets, and what is filed under its kind.
pub proof fn law_remove_undoes_add(
    assets: Seq<GameAsset>,
    kinds: Seq<(AssetType, Seq<u128>)>,
    a: GameAsset,
)
    requires
        ids_distinct(assets),
        keys_distinct(kinds),
        !has_asset(assets, a.id),
        !filed(kinds, a.asset_type).contains(a.id),
    ensures
        asset_put(assets, a).remove(asset_at(asset_put(assets, a), a.id)) == assets,
        filed(unfile_at(file_under(kinds, a.asset_type, a.id), a.asset_type, a.id), a.asset_type)
            == filed(kinds, a.asset_type),
{
    law_added_asset_is_found(assets, a);
    let r = asset_put(assets, a);
    lemma_asset_at(r, a.id, assets.len() as int);
    assert(r.remove(assets.len() as int) =~= assets);
    let t = a.asset_type;
    let id = a.id;
    let grown = file_under(kinds, t, id);
    lemma_file_under_distinct(kinds, t, id);
    if has_key(kinds, t) {
        let p = key_at(kinds, t);
        lemma_key_at(grown, t, p);
        let shrunk = unfile_at(grown, t, id);
        assert(without_id(kinds[p].1.push(id), id) == without_id(kinds[p].1, id)) by {
            assert(kinds[p].1.push(id).drop_last() == kinds[p].1);
        }
        lemma_without_absent(kinds[p].1, id);
        assert(shrunk[p].0 == t);
        assert(keys_distinct(shrunk)) by {
            assert forall|i: int, j: int|
                0 <= i < shrunk.len() && 0 <= j < shrunk.len() && (#[trigger] shrunk[i]).0 == (#[trigger] shrunk[j]).0 implies i
                == j by {
                assert(shrunk[i].0 == kinds[i].0);
                assert(shrunk[j].0 == kinds[j].0);
            }
        }
        lemma_key_at(shrunk, t, p);
    } else {
        let p = kinds.len() as int;
        lemma_key_at(grown, t, p);
        let shrunk = unfile_at(grown, t, id);
        let single = seq![id];
        assert(single.drop_last() =~= Seq::<u128>::empty());
        assert(single.last() == id);
        assert(without_id(single.drop_last(), id) == Seq::<u128>::empty());
        assert(without_id(single, id) == Seq::<u128>::empty());
        assert(shrunk[p].0 == t);
        assert(keys_distinct(shrunk)) by {
            assert forall|i: int, j: int|
                0 <= i < shrunk.len() && 0 <= j < shrunk.len() && (#[trigger] shrunk[i]).0 == (#[trigger] shrunk[j]).0 implies i
                == j by {
                assert(shrunk[i].0 == grown[i].0);
                assert(shrunk[j].0 == grown[j].0);
            }
        }
        lemma_key_at(shrunk, t, p);
    }
}

/// All assets of a project with their indices.
pub struct AssetDatabase {
    assets: Vec<GameAsset>,
    by_type: Vec<(AssetType, Vec<u128>)>,
    by_tag: Vec<(String, Vec<u128>)>,
    search_index: Vec<(String, Vec<u128>)>,
}

impl AssetDatabase {
    /// The assets, in the order they were first added.
    pub closed spec fn assets(&self) -> Seq<GameAsset> {
        self.assets@
    }

    /// The index by kind.
    pub closed spec fn type_index(&self) -> Seq<(AssetType, Seq<u128>)> {
        type_entries(self.by_type@)
    }

    /// The index by tag.
    pub closed spec fn tag_index(&self) -> Seq<(Seq<char>, Seq<u128>)> {
        text_entries(self.by_tag@)
    }

    /// The index by search term.
    pub closed spec fn term_index(&self) -> Seq<(Seq<char>, Seq<u128>)> {
        text_entries(self.search_index@)
    }

    /// Identifiers and keys are each unique.
    pub open spec fn wf(&self) -> bool {
        &&& ids_distinct(self.assets())
        &&& keys_distinct(self.type_index())
        &&& keys_distinct(self.tag_index())
        &&& keys_distinct(self.term_index())
    }

    /// An empty database.
    pub fn new() -> (r: Self)
        ensures
            r.wf(),
            r.assets() == Seq::<GameAsset>::empty(),
            r.type_index() == Seq::<(AssetType, Seq<u128>)>::empty(),
            r.tag_index() == Seq::<(Seq<char>, Seq<u128>)>::empty(),
            r.term_index() == Seq::<(Seq<char>, Seq<u128>)>::empty(),
    {
        let r = AssetDatabase {
            assets: Vec::new(),
            by_type: Vec::new(),
            by_tag: Vec::new(),
            search_index: Vec::new(),
        };
        assert(r.type_index() =~= Seq::<(AssetType, Seq<u128>)>::empty());
        assert(r.tag_index() =~= Seq::<(Seq<char>, Seq<u128>)>::empty());
        assert(r.term_index() =~= Seq::<(Seq<char>, Seq<u128>)>::empty());
        r
    }

    fn asset_pos(&self, id: u128) -> (r: Option<usize>)
        ensures
            match r {
                Some(i) => i < self.assets().len() && self.assets()[i as int].id == id,
                None => !has_asset(self.assets(), id),
            },
    {
        let mut i: usize = 0;
        while i < self.assets.len()
            invariant
                i <= self.assets@.len(),
                forall|j: int| 0 <= j < i ==> (#[trigger] self.assets@[j]).id != id,
            decreases self.assets@.len() - i,
        {
            if self.assets[i].id == id {
                return Some(i);
            }
            i = i + 1;
        }
        proof {
            if has_asset(self.assets(), id) {
                let j = asset_at(self.assets(), id);
                assert(self.assets@[j].id == id);
            }
        }
        None
    }

    /// Files an asset under its kind, its tags and its search terms, and
    /// stores it (replacing an asset with the same identifier); returns its
    /// identifier.
    pub fn add_asset(&mut self, asset: GameAsset) -> (r: u128)
        requires
            old(self).wf(),
        ensures
            final(self).wf(),
            r == asset.id,
            final(self).assets() == asset_put(old(self).assets(), asset),
            final(self).type_index() == file_under(old(self).type_index(), asset.asset_type, asset.id),
            final(self).tag_index() == file_all(old(self).tag_index(), texts(asset.tags@), asset.id),
            final(self).term_index() == file_all(old(self).term_index(), search_terms(asset), asset.id),
    {
        let id = asset.id;
        file_type(&mut self.by_type, asset.asset_type, id);
        let ghost tags = texts(asset.tags@);
        let ghost tag_start = self.tag_index();
        let mut k: usize = 0;
        while k < asset.tags.len()
            invariant
                k <= asset.tags@.len(),
                tags == texts(asset.tags@),
                id == asset.id,
                keys_distinct(text_entries(self.by_tag@)),
                text_entries(self.by_tag@) == file_all(tag_start, tags.subrange(0, k as int), id),
                keys_distinct(text_entries(self.search_index@)),
                self.search_index@ == old(self).search_index@,
                self.assets@ == old(self).assets@,
                keys_distinct(type_entries(self.by_type@)),
                type_entries(self.by_type@) == file_under(type_entries(old(self).by_type@), asset.asset_type, id),
                ids_distinct(self.assets@),
            decreases asset.tags@.len() - k,
        {
            let tag = asset.tags[k].clone();
            assert(tags.subrange(0, k + 1).drop_last() == tags.subrange(0, k as int));
            file_text(&mut self.by_tag, tag, id);
            k = k + 1;
        }
        assert(tags.subrange(0, k as int) == tags);
        let name_term = to_lowercase(asset.name.as_str());
        let type_term = to_lowercase(asset.asset_type.display_name());
        let ghost terms = search_terms(asset);
        let ghost term_start = self.term_index();
        file_text(&mut self.search_index, name_term, id);
        file_text(&mut self.search_index, type_term, id);
        proof {
            let first = terms.drop_last();
            assert(first.drop_last() =~= Seq::<Seq<char>>::empty());
            assert(first.last() == terms[0]);
            assert(file_all(term_start, first.drop_last(), id) == term_start);
            assert(file_all(term_start, first, id) == file_under(term_start, terms[0], id));
            assert(terms.last() == terms[1]);
            assert(file_all(term_start, terms, id) == file_under(
                file_under(term_start, terms[0], id),
                terms[1],
                id,
            ));
        }
        let ghost before = self.assets@;
        match self.asset_pos(id) {
            Some(i) => {
                proof {
                    lemma_asset_at(before, id, i as int);
                }
                self.assets.set(i, asset);
                assert forall|a: int, b: int|
                    0 <= a < self.assets@.len() && 0 <= b < self.assets@.len() && (#[trigger] self.assets@[a]).id
                        == (#[trigger] self.assets@[b]).id implies a == b by {
                    assert(self.assets@[a].id == before[a].id);
                    assert(self.assets@[b].id == before[b].id);
                }
            },
            None => {
                self.assets.push(asset);
                assert forall|a: int, b: int|
                    0 <= a < self.assets@.len() && 0 <= b < self.assets@.len() && (#[trigger] self.assets@[a]).id
                        == (#[trigger] self.assets@[b]).id implies a == b by {
                    if a < before.len() {
                        assert(self.assets@[a] == before[a]);
                    }
                    if b < before.len() {
                        assert(self.assets@[b] == before[b]);
                    }
                }
            },
        }
        id
    }

    /// Takes the asset `id` out of the database and out of its kind's and
    /// tags' entries and every search entry.
    pub fn remove_asset(&mut self, id: u128) -> (r: Option<GameAsset>)
        requires
            old(self).wf(),
        ensures
            final(self).wf(),
            has_asset(old(self).assets(), id) ==> {
                let a = old(self).assets()[asset_at(old(self).assets(), id)];
                &&& r == Some(a)
                &&& final(self).assets() == old(self).assets().remove(asset_at(old(self).assets(), id))
                &&& final(self).type_index() == unfile_at(old(self).type_index(), a.asset_type, id)
                &&& final(self).tag_index() == unfile_all(old(self).tag_index(), texts(a.tags@), id)
                &&& final(self).term_index() == unfile_everywhere(old(self).term_index(), id)
            },
            !has_asset(old(self).assets(), id) ==> r is None && final(self).assets() == old(
                self,
            ).assets() && final(self).type_index() == old(self).type_index() && final(self).tag_index()
                == old(self).tag_index() && final(self).term_index() == old(self).term_index(),
    {
        match self.asset_pos(id) {
            None => None,
            Some(i) => {
                let ghost before = self.assets@;
                proof {
                    lemma_asset_at(before, id, i as int);
                }
                let asset = self.assets.remove(i);
                assert forall|a: int, b: int|
                    0 <= a < self.assets@.len() && 0 <= b < self.assets@.len() && (#[trigger] self.assets@[a]).id
                        == (#[trigger] self.assets@[b]).id implies a == b by {
                    let a2 = if a < i { a } else { a + 1 };
                    let b2 = if b < i { b } else { b + 1 };
                    assert(self.assets@[a] == before[a2]);
                    assert(self.assets@[b] == before[b2]);
                }
                unfile_type(&mut self.by_type, asset.asset_type, id);
                let ghost tags = texts(asset.tags@);
                let ghost tag_start = self.tag_index();
                let mut k: usize = 0;
                while k < asset.tags.len()
                    invariant
                        k <= asset.tags@.len(),
                        tags == texts(asset.tags@),
                        keys_distinct(text_entries(self.by_tag@)),
                        text_entries(self.by_tag@) == unfile_all(tag_start, tags.subrange(0, k as int), id),
                        keys_distinct(text_entries(self.search_index@)),
                        self.search_index@ == old(self).search_index@,
                        self.assets@ == before.remove(i as int),
                        ids_distinct(self.assets@),
                        keys_distinct(type_entries(self.by_type@)),
                        type_entries(self.by_type@) == unfile_at(type_entries(old(self).by_type@), asset.asset_type, id),
                    decreases asset.tags@.len() - k,
                {
                    assert(tags.subrange(0, k + 1).drop_last() == tags.subrange(0, k as int));
                    unfile_text(&mut self.by_tag, &asset.tags[k], id);
                    k = k + 1;
                }
                assert(tags.subrange(0, k as int) == tags);
                unfile_text_everywhere(&mut self.search_index, id);
                Some(asset)
            },
        }
    }

    /// The asset with identifier `id`.
    pub fn get_asset(&self, id: u128) -> (r: Option<&GameAsset>)
        requires
            self.wf(),
        ensures
            match r {
                Some(a) => has_asset(self.assets(), id) && *a == self.assets()[asset_at(self.assets(), id)],
                None => !has_asset(self.assets(), id),
            },
    {
        match self.asset_pos(id) {
            Some(i) => {
                proof {
                    lemma_asset_at(self.assets(), id, i as int);
                }
                Some(&self.assets[i])
            },
            None => None,
        }
    }

    fn resolve_ids<'a>(&'a self, ids: &Vec<u128>) -> (r: Vec<&'a GameAsset>)
        requires
            self.wf(),
        ensures
            r@.map_values(|a: &GameAsset| *a) == resolve(ids@, self.assets()),
    {
        let mut out: Vec<&GameAsset> = Vec::new();
        let mut i: usize = 0;
        while i < ids.len()
            invariant
                i <= ids@.len(),
                self.wf(),
                out@.map_values(|a: &GameAsset| *a) == resolve(ids@.subrange(0, i as int), self.assets()),
            decreases ids@.len() - i,
        {
            assert(ids@.subrange(0, i + 1).drop_last() == ids@.subrange(0, i as int));
            let ghost before = out@.map_values(|a: &GameAsset| *a);
            match self.get_asset(ids[i]) {
                Some(a) => {
                    out.push(a);
                    assert(out@.map_values(|a: &GameAsset| *a) =~= before.push(*a));
                },
                None => {},
            }
            i = i + 1;
        }
        assert(ids@.subrange(0, i as int) == ids@);
        out
    }

    /// The assets filed under a kind, in filing order.
    pub fn get_assets_by_type(&self, asset_type: &AssetType) -> (r: Vec<&GameAsset>)
        requires
            self.wf(),
        ensures
            r@.map_values(|a: &GameAsset| *a) == resolve(filed(self.type_index(), *asset_type), self.assets()),
    {
        match type_pos(&self.by_type, *asset_type) {
            Some(i) => {
                proof {
                    lemma_key_at(self.type_index(), *asset_type, i as int);
                }
                self.resolve_ids(&self.by_type[i].1)
            },
            None => {
                let out: Vec<&GameAsset> = Vec::new();
                assert(out@.map_values(|a: &GameAsset| *a) =~= Seq::<GameAsset>::empty());
                out
            },
        }
    }

    /// The assets filed under a tag, in filing order.
    pub fn get_assets_by_tag(&self, tag: &str) -> (r: Vec<&GameAsset>)
        requires
            self.wf(),
        ensures
            r@.map_values(|a: &GameAsset| *a) == resolve(filed(self.tag_index(), tag@), self.assets()),
    {
        let key = owned(tag);
        match text_pos(&self.by_tag, &key) {
            Some(i) => {
                proof {
                    lemma_key_at(self.tag_index(), tag@, i as int);
                }
                self.resolve_ids(&self.by_tag[i].1)
            },
            None => {
                let out: Vec<&GameAsset> = Vec::new();
                assert(out@.map_values(|a: &GameAsset| *a) =~= Seq::<GameAsset>::empty());
                out
            },
        }
    }

    /// Counts and sizes over all assets and per kind; each kind present
    /// has one entry, in the order the kinds first occur.
    pub fn get_stats(&self) -> (r: AssetStats)
        requires
            total_size_of(self.assets()) <= u64::MAX,
        ensures
            r.total_assets == self.assets().len(),
            r.total_size == total_size_of(self.assets()),
            forall|k: int, m: int|
                0 <= k < r.by_type@.len() && 0 <= m < r.by_type@.len() && (#[trigger] r.by_type@[k]).0
                    == (#[trigger] r.by_type@[m]).0 ==> k == m,
            forall|k: int|
                0 <= k < r.by_type@.len() ==> {
                    let e = #[trigger] r.by_type@[k];
                    &&& e.1.count == kind_count(self.assets(), e.0)
                    &&& e.1.size == kind_size(self.assets(), e.0)
                    &&& e.1.count > 0
                },
            forall|t: AssetType|
                #[trigger] kind_count(self.assets(), t) > 0 ==> exists|k: int|
                    0 <= k < r.by_type@.len() && (#[trigger] r.by_type@[k]).0 == t,
    {
        let ghost all = self.assets();
        let mut total: u64 = 0;
        let mut by_type: Vec<(AssetType, TypeStats)> = Vec::new();
        let mut i: usize = 0;
        while i < self.assets.len()
            invariant
                i <= all.len(),
                all == self.assets(),
                total_size_of(all) <= u64::MAX,
                total == total_size_of(all.subrange(0, i as int)),
                forall|k: int, m: int|
                    0 <= k < by_type@.len() && 0 <= m < by_type@.len() && (#[trigger] by_type@[k]).0
                        == (#[trigger] by_type@[m]).0 ==> k == m,
                forall|k: int|
                    0 <= k < by_type@.len() ==> {
                        let e = #[trigger] by_type@[k];
                        &&& e.1.count == kind_count(all.subrange(0, i as int), e.0)
                        &&& e.1.size == kind_size(all.subrange(0, i as int), e.0)
                        &&& e.1.count > 0
                    },
                forall|t: AssetType|
                    #[trigger] kind_count(all.subrange(0, i as int), t) > 0 ==> exists|k: int|
                        0 <= k < by_type@.len() && (#[trigger] by_type@[k]).0 == t,
            decreases all.len() - i,
        {
            let a = &self.assets[i];
            let ghost prefix = all.subrange(0, i as int);
            let ghost next = all.subrange(0, i + 1);
            assert(next.drop_last() == prefix);
            assert(next.last() == *a);
            proof {
                lemma_total_prefix(all, i + 1);
                lemma_kind_size_bound(next, a.asset_type);
            }
            total = total + a.size;
            let mut pos: Option<usize> = None;
            let mut k: usize = 0;
            while k < by_type.len()
                invariant
                    k <= by_type@.len(),
                    match pos {
                        Some(p) => p < by_type@.len() && by_type@[p as int].0 == a.asset_type,
                        None => forall|m: int| 0 <= m < k ==> (#[trigger] by_type@[m]).0 != a.asset_type,
                    },
                decreases by_type@.len() - k,
            {
                if pos.is_none() && by_type[k].0 == a.asset_type {
                    pos = Some(k);
                }
                k = k + 1;
            }
            let ghost prev = by_type@;
            match pos {
                Some(p) => {
                    let count = by_type[p].1.count;
                    let size = by_type[p].1.size;
                    proof {
                        assert(kind_count(next, a.asset_type) == count + 1);
                        assert(kind_size(next, a.asset_type) == size + a.size);
                    }
                    by_type.set(p, (a.asset_type, TypeStats { count: count + 1, size: size + a.size }));
                    assert forall|k2: int| 0 <= k2 < by_type@.len() && k2 != p implies #[trigger] by_type@[k2]
                        == prev[k2] by {}
                },
                None => {
                    proof {
                        assert(kind_count(prefix, a.asset_type) == 0) by {
                            if kind_count(prefix, a.asset_type) > 0 {
                                let m = choose|m: int| 0 <= m < prev.len() && (#[trigger] prev[m]).0 == a.asset_type;
                            }
                        }
                        lemma_kind_absent(prefix, a.asset_type);
                        assert(kind_count(next, a.asset_type) == 1);
                        assert(kind_size(next, a.asset_type) == a.size);
                    }
                    by_type.push((a.asset_type, TypeStats { count: 1, size: a.size }));
                },
            }
            proof {
                assert forall|k2: int| 0 <= k2 < by_type@.len() implies {
                    let e = #[trigger] by_type@[k2];
                    &&& e.1.count == kind_count(next, e.0)
                    &&& e.1.size == kind_size(next, e.0)
                    &&& e.1.count > 0
                } by {
                    if k2 < prev.len() && by_type@[k2].0 != a.asset_type {
                        assert(by_type@[k2] == prev[k2]);
                    }
                }
                assert forall|t: AssetType| #[trigger] kind_count(next, t) > 0 implies exists|k2: int|
                    0 <= k2 < by_type@.len() && (#[trigger] by_type@[k2]).0 == t by {
                    if t == a.asset_type {
                        match pos {
                            Some(p) => {
                                assert(by_type@[p as int].0 == t);
                            },
                            None => {
                                assert(by_type@[prev.len() as int].0 == t);
                            },
                        }
                    } else {
                        assert(kind_count(prefix, t) > 0);
                        let m = choose|m: int| 0 <= m < prev.len() && (#[trigger] prev[m]).0 == t;
                        assert(by_type@[m].0 == t);
                    }
                }
            }
            i = i + 1;
        }
        assert(all.subrange(0, i as int) == all);
        AssetStats { total_assets: self.assets.len(), total_size: total, by_type }
    }

    /// The assets whose search terms match the lowercased query: first
    /// those filed under the query itself, then, entry by entry, those
    /// under terms that contain it (each asset once among these).
    pub fn search_assets(&self, query: &str) -> (r: Vec<&GameAsset>)
        requires
            self.wf(),
        ensures
            r@.map_values(|a: &GameAsset| *a) == search_results(self.assets(), self.term_index(), query@),
    {
        let q = to_lowercase(query);
        let ghost assets = self.assets();
        let ghost terms = self.term_index();
        let mut results: Vec<&GameAsset> = match text_pos(&self.search_index, &q) {
            Some(i) => {
                proof {
                    lemma_key_at(terms, q@, i as int);
                }
                self.resolve_ids(&self.search_index[i].1)
            },
            None => {
                let out: Vec<&GameAsset> = Vec::new();
                assert(out@.map_values(|a: &GameAsset| *a) =~= Seq::<GameAsset>::empty());
                out
            },
        };
        let ghost start = results@.map_values(|a: &GameAsset| *a);
        let mut e: usize = 0;
        while e < self.search_index.len()
            invariant
                e <= self.search_index@.len(),
                self.wf(),
                assets == self.assets(),
                terms == self.term_index(),
                results@.map_values(|a: &GameAsset| *a) == partial_matches(
                    start,
                    terms.subrange(0, e as int),
                    q@,
                    assets,
                ),
            decreases self.search_index@.len() - e,
        {
            let ghost entries = terms.subrange(0, e + 1);
            assert(entries.drop_last() == terms.subrange(0, e as int));
            assert(entries.last() == terms[e as int]);
            let term = &self.search_index[e].0;
            if text_contains(term, &q) && *term != q {
                let ids = &self.search_index[e].1;
                let ghost base = results@.map_values(|a: &GameAsset| *a);
                let mut k: usize = 0;
                while k < ids.len()
                    invariant
                        k <= ids@.len(),
                        self.wf(),
                        assets == self.assets(),
                        results@.map_values(|a: &GameAsset| *a) == add_new(base, ids@.subrange(0, k as int), assets),
                    decreases ids@.len() - k,
                {
                    assert(ids@.subrange(0, k + 1).drop_last() == ids@.subrange(0, k as int));
                    match self.get_asset(ids[k]) {
                        Some(a) => {
                            if !has_result_id(&results, a.id) {
                                let ghost before = results@.map_values(|x: &GameAsset| *x);
                                results.push(a);
                                assert(results@.map_values(|x: &GameAsset| *x) =~= before.push(*a));
                            }
                        },
                        None => {},
                    }
                    k = k + 1;
                }
                assert(ids@.subrange(0, k as int) == ids@);
            }
            e = e + 1;
        }
        assert(terms.subrange(0, e as int) == terms);
        results
    }

    /// Every asset.
    pub fn get_all_assets(&self) -> (r: Vec<&GameAsset>)
        ensures
            r@.map_values(|a: &GameAsset| *a) == self.assets(),
    {
        let mut out: Vec<&GameAsset> = Vec::new();
        let mut i: usize = 0;
        while i < self.assets.len()
            invariant
                i <= self.assets@.len(),
                out@.map_values(|a: &GameAsset| *a) == self.assets().subrange(0, i as int),
            decreases self.assets@.len() - i,
        {
            let ghost before = out@.map_values(|a: &GameAsset| *a);
            out.push(&self.assets[i]);
            assert(out@.map_values(|a: &GameAsset| *a) =~= before.push(self.assets@[i as int]));
            i = i + 1;
            assert(out@.map_values(|a: &GameAsset| *a) =~= self.assets().subrange(0, i as int));
        }
        assert(self.assets().subrange(0, i as int) =~= self.assets());
        out
    }
}

impl Default for AssetDatabase {
    /// Same as `AssetDatabase::new`.
    fn default() -> (r: Self)
        ensures
            r.wf(),
            r.assets() == Seq::<GameAsset>::empty(),
    {
        AssetDatabase::new()
    }
}


/// What the browser lists: all assets when the query is empty, else the
/// search results; then only those of the chosen kind and tag.
pub open spec fn browser_listing(
    assets: Seq<GameAsset>,
    terms: Seq<(Seq<char>, Seq<u128>)>,
    query: Seq<char>,
    kind: Option<AssetType>,
    tag: Option<Seq<char>>,
) -> Seq<GameAsset> {
    let base = if query.len() == 0 {
        assets
    } else {
        search_results(assets, terms, query)
    };
    let by_kind = match kind {
        Some(t) => of_kind(base, t),
        None => base,
    };
    match tag {
        Some(g) => tagged(by_kind, g),
        None => by_kind,
    }
}

/// Whether an asset passes the browser's filters: of kind `t` when a kind
/// is chosen, carrying tag `g` when a tag is chosen.
pub open spec fn passes_filters(a: GameAsset, kind: Option<AssetType>, tag: Option<Seq<char>>) -> bool {
    &&& (kind matches Some(t) ==> a.asset_type == t)
    &&& (tag matches Some(g) ==> texts(a.tags@).contains(g))
}

/// The kind filter, then the tag filter, keeps in order exactly the assets
/// that pass both.
proof fn lemma_filters_compose(s: Seq<GameAsset>, kind: Option<AssetType>, tag: Option<Seq<char>>)
    ensures
        ({
            let of_chosen_kind = match kind {
                Some(t) => of_kind(s, t),
                None => s,
            };
            match tag {
                Some(g) => tagged(of_chosen_kind, g),
                None => of_chosen_kind,
            }
        }) == s.filter(|a: GameAsset| passes_filters(a, kind, tag)),
    decreases s.len(),
{
    reveal(Seq::filter);
    if s.len() > 0 {
        let rest = s.drop_last();
        let a = s.last();
        lemma_filters_compose(rest, kind, tag);
        match kind {
            Some(t) => {
                let k0 = of_kind(rest, t);
                assert(k0.push(a).drop_last() =~= k0);
                assert(k0.push(a).last() == a);
            },
            None => {
                assert(rest.push(a) =~= s);
            },
        }
    }
}

/// What the browser lists is the query's result (all assets for an empty
/// query) restricted, in order, to the assets that pass every active
/// filter: each listed asset is of the chosen kind and carries the chosen
/// tag, and no such asset is left out.
pub proof fn law_browser_listing_filters(
    assets: Seq<GameAsset>,
    terms: Seq<(Seq<char>, Seq<u128>)>,
    query: Seq<char>,
    kind: Option<AssetType>,
    tag: Option<Seq<char>>,
)
    ensures
        browser_listing(assets, terms, query, kind, tag) == (if query.len() == 0 {
            assets
        } else {
            search_results(assets, terms, query)
        }).filter(|a: GameAsset| passes_filters(a, kind, tag)),
        forall|i: int|
            0 <= i < browser_listing(assets, terms, query, kind, tag).len() ==> passes_filters(
                #[trigger] browser_listing(assets, terms, query, kind, tag)[i],
                kind,
                tag,
            ),
{
    let base = if query.len() == 0 {
        assets
    } else {
        search_results(assets, terms, query)
    };
    let pred = |a: GameAsset| passes_filters(a, kind, tag);
    lemma_filters_compose(base, kind, tag);
    assert forall|i: int| 0 <= i < base.filter(pred).len() implies pred(
        #[trigger] base.filter(pred)[i],
    ) by {
        base.lemma_filter_pred(pred, i);
    }
}

fn keep_kind<'a>(v: Vec<&'a GameAsset>, t: AssetType) -> (r: Vec<&'a GameAsset>)
    ensures
        r@.map_values(|a: &GameAsset| *a) == of_kind(v@.map_values(|a: &GameAsset| *a), t),
{
    let ghost all = v@.map_values(|a: &GameAsset| *a);
    let mut out: Vec<&GameAsset> = Vec::new();
    let mut i: usize = 0;
    while i < v.len()
        invariant
            i <= v@.len(),
            all == v@.map_values(|a: &GameAsset| *a),
            out@.map_values(|a: &GameAsset| *a) == of_kind(all.subrange(0, i as int), t),
        decreases v@.len() - i,
    {
        assert(all.subrange(0, i + 1).drop_last() == all.subrange(0, i as int));
        if v[i].asset_type == t {
            let ghost before = out@.map_values(|a: &GameAsset| *a);
            out.push(v[i]);
            assert(out@.map_values(|a: &GameAsset| *a) =~= before.push(all[i as int]));
        }
        i = i + 1;
    }
    assert(all.subrange(0, i as int) == all);
    out
}

fn keep_tagged<'a>(v: Vec<&'a GameAsset>, tag: &String) -> (r: Vec<&'a GameAsset>)
    ensures
        r@.map_values(|a: &GameAsset| *a) == tagged(v@.map_values(|a: &GameAsset| *a), tag@),
{
    let ghost all = v@.map_values(|a: &GameAsset| *a);
    let mut out: Vec<&GameAsset> = Vec::new();
    let mut i: usize = 0;
    while i < v.len()
        invariant
            i <= v@.len(),
            all == v@.map_values(|a: &GameAsset| *a),
            out@.map_values(|a: &GameAsset| *a) == tagged(all.subrange(0, i as int), tag@),
        decreases v@.len() - i,
    {
        assert(all.subrange(0, i + 1).drop_last() == all.subrange(0, i as int));
        if v[i].has_tag(tag.as_str()) {
            let ghost before = out@.map_values(|a: &GameAsset| *a);
            out.push(v[i]);
            assert(out@.map_values(|a: &GameAsset| *a) =~= before.push(all[i as int]));
        }
        i = i + 1;
    }
    assert(all.subrange(0, i as int) == all);
    out
}

/// The asset browser: a database, a search query, kind and tag filters,
/// and a selection.
pub struct AssetBrowser {
    pub database: AssetDatabase,
    pub search_query: String,
    pub type_filter: Option<AssetType>,
    pub tag_filter: Option<String>,
    pub selected_asset: Option<u128>,
}

/// The view of an optional string.
pub open spec fn opt_text(o: Option<String>) -> Option<Seq<char>> {
    match o {
        Some(s) => Some(s@),
        None => None,
    }
}

impl AssetBrowser {
    /// An empty database, no query, no filters, nothing selected.
    pub fn new() -> (r: Self)
        ensures
            r.database.wf(),
            r.database.assets() == Seq::<GameAsset>::empty(),
            r.database.type_index() == Seq::<(AssetType, Seq<u128>)>::empty(),
            r.database.tag_index() == Seq::<(Seq<char>, Seq<u128>)>::empty(),
            r.database.term_index() == Seq::<(Seq<char>, Seq<u128>)>::empty(),
            r.search_query@ == Seq::<char>::empty(),
            r.type_filter is None,
            r.tag_filter is None,
            r.selected_asset is None,
    {
        AssetBrowser {
            database: AssetDatabase::new(),
            search_query: String::new(),
            type_filter: None,
            tag_filter: None,
            selected_asset: None,
        }
    }

    /// The assets the browser lists under its query and filters.
    pub fn get_filtered_assets(&self) -> (r: Vec<&GameAsset>)
        requires
            self.database.wf(),
        ensures
            r@.map_values(|a: &GameAsset| *a) == browser_listing(
                self.database.assets(),
                self.database.term_index(),
                self.search_query@,
                self.type_filter,
                opt_text(self.tag_filter),
            ),
            forall|i: int|
                0 <= i < r@.len() ==> passes_filters(
                    *#[trigger] r@[i],
                    self.type_filter,
                    opt_text(self.tag_filter),
                ),
    {
        proof {
            law_browser_listing_filters(
                self.database.assets(),
                self.database.term_index(),
                self.search_query@,
                self.type_filter,
                opt_text(self.tag_filter),
            );
        }
        let base = if self.search_query.as_str().is_empty() {
            self.database.get_all_assets()
        } else {
            self.database.search_assets(self.search_query.as_str())
        };
        let by_kind = match self.type_filter {
            Some(t) => keep_kind(base, t),
            None => base,
        };
        let r = match &self.tag_filter {
            Some(g) => keep_tagged(by_kind, g),
            None => by_kind,
        };
        proof {
            let listed = r@.map_values(|a: &GameAsset| *a);
            assert forall|i: int| 0 <= i < r@.len() implies passes_filters(
                *#[trigger] r@[i],
                self.type_filter,
                opt_text(self.tag_filter),
            ) by {
                assert(listed[i] == *r@[i]);
            }
        }
        r
    }

    /// Sets the search query.
    pub fn set_search_query(&mut self, query: String)
        ensures
            final(self).search_query == query,
            final(self).type_filter == old(self).type_filter,
            final(self).tag_filter == old(self).tag_filter,
            final(self).selected_asset == old(self).selected_asset,
            final(self).database == old(self).database,
    {
        self.search_query = query;
    }

    /// Sets or clears the kind filter.
    pub fn set_type_filter(&mut self, asset_type: Option<AssetType>)
        ensures
            final(self).type_filter == asset_type,
            final(self).search_query == old(self).search_query,
            final(self).tag_filter == old(self).tag_filter,
            final(self).selected_asset == old(self).selected_asset,
            final(self).database == old(self).database,
    {
        self.type_filter = asset_type;
    }

    /// Sets or clears the tag filter.
    pub fn set_tag_filter(&mut self, tag: Option<String>)
        ensures
            final(self).tag_filter == tag,
            final(self).search_query == old(self).search_query,
            final(self).type_filter == old(self).type_filter,
            final(self).selected_asset == old(self).selected_asset,
            final(self).database == old(self).database,
    {
        self.tag_filter = tag;
    }

    /// Selects an asset, or clears the selection.
    pub fn select_asset(&mut self, asset_id: Option<u128>)
        ensures
            final(self).selected_asset == asset_id,
            final(self).search_query == old(self).search_query,
            final(self).type_filter == old(self).type_filter,
            final(self).tag_filter == old(self).tag_filter,
            final(self).database == old(self).database,
    {
        self.selected_asset = asset_id;
    }

    /// The selected asset, if the selection names one in the database.
    pub fn get_selected_asset(&self) -> (r: Option<&GameAsset>)
        requires
            self.database.wf(),
        ensures
            match self.selected_asset {
                Some(id) => match r {
                    Some(a) => has_asset(self.database.assets(), id) && *a == self.database.assets()[asset_at(
                        self.database.assets(),
                        id,
                    )],
                    None => !has_asset(self.database.assets(), id),
                },
                None => r is None,
            },
    {
        match self.selected_asset {
            Some(id) => self.database.get_asset(id),
            None => None,
        }
    }
}

impl Default for AssetBrowser {
    /// Same as `AssetBrowser::new`.
    fn default() -> (r: Self)
        ensures
            r.database.wf(),
            r.database.assets() == Seq::<GameAsset>::empty(),
            r.type_filter is None,
            r.tag_filter is None,
            r.selected_asset is None,
    {
        AssetBrowser::new()
    }
}

} // verus!
