//! The cache of native font objects.
//!
//! A font is registered once under its key as a base object. From a base
//! object the font service makes objects for one size and one set of
//! variation settings; these are kept under that triple, so that a size is
//! instantiated once. The cache holds both kinds of object without looking
//! inside them: `B` is the type of a base object, `S` that of a sized one.

use vstd::prelude::*;
use crate::instance::{FontKey, FontSize, FontVariation};

verus! {

/// What a sized font object is cached under.
pub type SizedKey = (FontKey, FontSize, Seq<FontVariation>);

struct BaseEntry<B> {
    key: FontKey,
    font: B,
}

struct SizedEntry<S> {
    key: FontKey,
    size: FontSize,
    variations: Vec<FontVariation>,
    font: S,
}

/// The fonts that are registered, and the sized objects made from them.
pub struct FontCache<B, S> {
    base: Vec<BaseEntry<B>>,
    sized: Vec<SizedEntry<S>>,
}

/// What looking for a sized font object comes to.
pub enum FontLookup<'a, B, S> {
    /// The object is cached.
    Cached(&'a S),
    /// The object is not cached yet, but can be made from this base object.
    Instantiate(&'a B),
    /// No font is registered under the key.
    NotFound,
}

spec fn distinct_keys<K, V>(s: Seq<(K, V)>) -> bool {
    forall|i: int, j: int| 0 <= i < j < s.len() ==> (#[trigger] s[i]).0 != (#[trigger] s[j]).0
}

spec fn has_key<K, V>(s: Seq<(K, V)>, k: K) -> bool {
    exists|i: int| 0 <= i < s.len() && (#[trigger] s[i]).0 == k
}

spec fn index_of_key<K, V>(s: Seq<(K, V)>, k: K) -> int {
    choose|i: int| 0 <= i < s.len() && (#[trigger] s[i]).0 == k
}

spec fn assoc_map<K, V>(s: Seq<(K, V)>) -> Map<K, V> {
    Map::new(|k: K| has_key(s, k), |k: K| s[index_of_key(s, k)].1)
}

proof fn lemma_assoc_at<K, V>(s: Seq<(K, V)>, i: int)
    requires
        distinct_keys(s),
        0 <= i < s.len(),
    ensures
        has_key(s, s[i].0),
        assoc_map(s).contains_key(s[i].0),
        assoc_map(s)[s[i].0] == s[i].1,
{
    let k = s[i].0;
    assert(s[i].0 == k);
    let j = index_of_key(s, k);
    assert(0 <= j < s.len() && s[j].0 == k);
    if j < i {
        assert(s[j].0 != s[i].0);
    } else if i < j {
        assert(s[i].0 != s[j].0);
    }
}

proof fn lemma_assoc_absent<K, V>(s: Seq<(K, V)>, k: K)
    requires
        forall|i: int| 0 <= i < s.len() ==> (#[trigger] s[i]).0 != k,
    ensures
        !has_key(s, k),
        !assoc_map(s).contains_key(k),
{
}

proof fn lemma_assoc_push<K, V>(s: Seq<(K, V)>, k: K, v: V)
    requires
        distinct_keys(s),
        !has_key(s, k),
    ensures
        distinct_keys(s.push((k, v))),
        assoc_map(s.push((k, v))) == assoc_map(s).insert(k, v),
{
    let t = s.push((k, v));
    assert forall|i: int, j: int| 0 <= i < j < t.len() implies (#[trigger] t[i]).0 != (
    #[trigger] t[j]).0 by {
        if j == s.len() {
            assert(t[i] == s[i]);
            assert(s[i].0 != k);
        } else {
            assert(t[i] == s[i] && t[j] == s[j]);
        }
    }
    assert forall|q: K| #[trigger] assoc_map(t).contains_key(q) <==> assoc_map(s).insert(
        k,
        v,
    ).contains_key(q) by {
        if has_key(t, q) {
            let j = index_of_key(t, q);
            if j < s.len() {
                assert(s[j] == t[j]);
            }
        }
        if has_key(s, q) {
            let j = index_of_key(s, q);
            assert(t[j] == s[j]);
        }
        if q == k {
            assert(t[s.len() as int].0 == k);
        }
    }
    assert forall|q: K| #[trigger] assoc_map(t).contains_key(q) implies assoc_map(t)[q]
        == assoc_map(s).insert(k, v)[q] by {
        let j = index_of_key(t, q);
        lemma_assoc_at(t, j);
        if j < s.len() {
            assert(t[j] == s[j]);
            lemma_assoc_at(s, j);
        }
    }
    assert(assoc_map(t) =~= assoc_map(s).insert(k, v));
}

proof fn lemma_assoc_remove<K, V>(s: Seq<(K, V)>, i: int)
    requires
        distinct_keys(s),
        0 <= i < s.len(),
    ensures
        distinct_keys(s.remove(i)),
        assoc_map(s.remove(i)) == assoc_map(s).remove(s[i].0),
{
    let t = s.remove(i);
    let k = s[i].0;
    assert forall|a: int, b: int| 0 <= a < b < t.len() implies (#[trigger] t[a]).0 != (
    #[trigger] t[b]).0 by {
        let a2 = if a < i {
            a
        } else {
            a + 1
        };
        let b2 = if b < i {
            b
        } else {
            b + 1
        };
        assert(t[a] == s[a2] && t[b] == s[b2]);
    }
    assert forall|q: K| #[trigger] assoc_map(t).contains_key(q) <==> assoc_map(s).remove(
        k,
    ).contains_key(q) by {
        if has_key(t, q) {
            let j = index_of_key(t, q);
            let j2 = if j < i {
                j
            } else {
                j + 1
            };
            assert(t[j] == s[j2]);
            if j2 < i {
                assert(s[j2].0 != s[i].0);
            } else {
                assert(s[i].0 != s[j2].0);
            }
        }
        if has_key(s, q) && q != k {
            let j = index_of_key(s, q);
            let j2 = if j < i {
                j
            } else {
                j - 1
            };
            assert(t[j2] == s[j]);
        }
    }
    assert forall|q: K| #[trigger] assoc_map(t).contains_key(q) implies assoc_map(t)[q]
        == assoc_map(s).remove(k)[q] by {
        let j = index_of_key(t, q);
        let j2 = if j < i {
            j
        } else {
            j + 1
        };
        lemma_assoc_at(t, j);
        assert(t[j] == s[j2]);
        lemma_assoc_at(s, j2);
    }
    assert(assoc_map(t) =~= assoc_map(s).remove(k));
}

spec fn base_pairs<B>(entries: Seq<BaseEntry<B>>) -> Seq<(FontKey, B)> {
    Seq::new(entries.len(), |i: int| (entries[i].key, entries[i].font))
}

spec fn sized_pairs<S>(entries: Seq<SizedEntry<S>>) -> Seq<(SizedKey, S)> {
    Seq::new(
        entries.len(),
        |i: int| ((entries[i].key, entries[i].size, entries[i].variations@), entries[i].font),
    )
}

/// The sized objects that are left when a font goes: those of other fonts.
pub open spec fn without_font<S>(sized: Map<SizedKey, S>, key: FontKey) -> Map<SizedKey, S> {
    Map::new(|k: SizedKey| sized.contains_key(k) && k.0 != key, |k: SizedKey| sized[k])
}

/// The sized objects after one was offered for caching: it is taken where
/// its font is registered and nothing is cached under its key yet.
pub open spec fn with_sized<B, S>(
    fonts: Map<FontKey, B>,
    sized: Map<SizedKey, S>,
    key: SizedKey,
    font: S,
) -> Map<SizedKey, S> {
    if fonts.contains_key(key.0) && !sized.contains_key(key) {
        sized.insert(key, font)
    } else {
        sized
    }
}

/// The fonts after one was offered for registration: it is taken where
/// nothing is registered under its key yet.
pub open spec fn with_font<B>(fonts: Map<FontKey, B>, key: FontKey, font: B) -> Map<FontKey, B> {
    if fonts.contains_key(key) {
        fonts
    } else {
        fonts.insert(key, font)
    }
}

/// What looking for `key` comes to with these fonts and sized objects.
pub open spec fn lookup_in<'a, B, S>(
    fonts: Map<FontKey, B>,
    sized: Map<SizedKey, S>,
    key: SizedKey,
) -> FontLookup<'a, B, S> {
    if sized.contains_key(key) {
        FontLookup::Cached(&sized[key])
    } else if fonts.contains_key(key.0) {
        FontLookup::Instantiate(&fonts[key.0])
    } else {
        FontLookup::NotFound
    }
}

/// Whether two lists of variation settings are the same.
pub fn same_variations(a: &[FontVariation], b: &[FontVariation]) -> (r: bool)
    ensures
        r == (a@ == b@),
{
    if a.len() != b.len() {
        return false;
    }
    let mut i: usize = 0;
    while i < a.len()
        invariant
            i <= a.len(),
            a.len() == b.len(),
            forall|j: int| 0 <= j < i ==> a@[j] == b@[j],
        decreases a.len() - i,
    {
        if a[i].tag != b[i].tag || a[i].value != b[i].value {
            return false;
        }
        i += 1;
    }
    assert(a@ =~= b@);
    true
}

/// An owned copy of a list of variation settings.
pub fn copy_variations(variations: &[FontVariation]) -> (r: Vec<FontVariation>)
    ensures
        r@ == variations@,
{
    let mut copy: Vec<FontVariation> = Vec::new();
    let mut i: usize = 0;
    while i < variations.len()
        invariant
            i <= variations.len(),
            copy@ == variations@.subrange(0, i as int),
        decreases variations.len() - i,
    {
        copy.push(variations[i]);
        assert(copy@ =~= variations@.subrange(0, i + 1));
        i += 1;
    }
    assert(copy@ =~= variations@);
    copy
}

impl<B, S> FontCache<B, S> {
    /// The registered fonts, by key.
    pub closed spec fn fonts(&self) -> Map<FontKey, B> {
        assoc_map(base_pairs(self.base@))
    }

    /// The cached sized objects, by font key, size and variation settings.
    pub closed spec fn sized_fonts(&self) -> Map<SizedKey, S> {
        assoc_map(sized_pairs(self.sized@))
    }

    /// The cache's invariant: nothing is held twice under one key, and
    /// every sized object belongs to a registered font.
    pub closed spec fn wf(&self) -> bool {
        &&& distinct_keys(base_pairs(self.base@))
        &&& distinct_keys(sized_pairs(self.sized@))
        &&& forall|k: SizedKey| #[trigger]
            self.sized_fonts().contains_key(k) ==> self.fonts().contains_key(k.0)
    }

    /// In a well-formed cache every sized object belongs to a registered
    /// font.
    pub proof fn lemma_sized_has_font(&self, key: SizedKey)
        requires
            self.wf(),
            self.sized_fonts().contains_key(key),
        ensures
            self.fonts().contains_key(key.0),
    {
    }

    /// An empty cache.
    pub fn new() -> (cache: Self)
        ensures
            cache.wf(),
            cache.fonts() == Map::<FontKey, B>::empty(),
            cache.sized_fonts() == Map::<SizedKey, S>::empty(),
    {
        let cache = FontCache { base: Vec::new(), sized: Vec::new() };
        assert(cache.fonts() =~= Map::<FontKey, B>::empty());
        assert(cache.sized_fonts() =~= Map::<SizedKey, S>::empty());
        cache
    }

    fn find_font(&self, key: &FontKey) -> (r: Option<usize>)
        requires
            self.wf(),
        ensures
            r is Some <==> self.fonts().contains_key(*key),
            r is Some ==> r->0 < self.base@.len() && self.base@[r->0 as int].key == *key
                && self.fonts()[*key] == self.base@[r->0 as int].font,
    {
        let ghost pairs = base_pairs(self.base@);
        let mut i: usize = 0;
        while i < self.base.len()
            invariant
                self.wf(),
                i <= self.base.len(),
                pairs == base_pairs(self.base@),
                forall|j: int| 0 <= j < i ==> (#[trigger] pairs[j]).0 != *key,
            decreases self.base.len() - i,
        {
            if self.base[i].key.0 == key.0 && self.base[i].key.1 == key.1 {
                proof {
                    assert(pairs[i as int].0 == *key);
                    lemma_assoc_at(pairs, i as int);
                }
                return Some(i);
            }
            assert(pairs[i as int].0 != *key);
            i += 1;
        }
        proof {
            lemma_assoc_absent(pairs, *key);
        }
        None
    }

    fn find_sized(&self, key: &FontKey, size: FontSize, variations: &[FontVariation]) -> (r:
        Option<usize>)
        requires
            self.wf(),
        ensures
            r is Some <==> self.sized_fonts().contains_key((*key, size, variations@)),
            r is Some ==> r->0 < self.sized@.len() && self.sized_fonts()[(
                *key,
                size,
                variations@,
            )] == self.sized@[r->0 as int].font && sized_pairs(self.sized@)[r->0 as int].0
                == (*key, size, variations@),
    {
        let ghost pairs = sized_pairs(self.sized@);
        let ghost wanted = (*key, size, variations@);
        let mut i: usize = 0;
        while i < self.sized.len()
            invariant
                self.wf(),
                i <= self.sized.len(),
                pairs == sized_pairs(self.sized@),
                wanted == (*key, size, variations@),
                forall|j: int| 0 <= j < i ==> (#[trigger] pairs[j]).0 != wanted,
            decreases self.sized.len() - i,
        {
            let entry = &self.sized[i];
            if entry.key.0 == key.0 && entry.key.1 == key.1 && entry.size.0 == size.0
                && same_variations(entry.variations.as_slice(), variations) {
                proof {
                    assert(pairs[i as int].0 == wanted);
                    lemma_assoc_at(pairs, i as int);
                }
                return Some(i);
            }
            assert(pairs[i as int].0 != wanted);
            i += 1;
        }
        proof {
            lemma_assoc_absent(pairs, wanted);
        }
        None
    }

    /// Whether a font is registered under `key`.
    pub fn has_font(&self, key: &FontKey) -> (r: bool)
        requires
            self.wf(),
        ensures
            r == self.fonts().contains_key(*key),
    {
        self.find_font(key).is_some()
    }

    /// The base object registered under `key`.
    pub fn get_font(&self, key: &FontKey) -> (r: Option<&B>)
        requires
            self.wf(),
        ensures
            r is Some <==> self.fonts().contains_key(*key),
            r is Some ==> *r->0 == self.fonts()[*key],
    {
        match self.find_font(key) {
            Some(i) => Some(&self.base[i].font),
            None => None,
        }
    }

    /// The sized object cached under the triple.
    pub fn get_sized(&self, key: &FontKey, size: FontSize, variations: &[FontVariation]) -> (r:
        Option<&S>)
        requires
            self.wf(),
        ensures
            r is Some <==> self.sized_fonts().contains_key((*key, size, variations@)),
            r is Some ==> *r->0 == self.sized_fonts()[(*key, size, variations@)],
    {
        match self.find_sized(key, size, variations) {
            Some(i) => Some(&self.sized[i].font),
            None => None,
        }
    }

    /// Looks for the sized object under the triple: the cached object, or
    /// else the base object to make it from, or else nothing.
    pub fn lookup(&self, key: &FontKey, size: FontSize, variations: &[FontVariation]) -> (r:
        FontLookup<'_, B, S>)
        requires
            self.wf(),
        ensures
            r == lookup_in(self.fonts(), self.sized_fonts(), (*key, size, variations@)),
            r is NotFound <==> !self.fonts().contains_key(*key),
    {
        proof {
            if self.sized_fonts().contains_key((*key, size, variations@)) {
                self.lemma_sized_has_font((*key, size, variations@));
            }
        }
        match self.find_sized(key, size, variations) {
            Some(i) => FontLookup::Cached(&self.sized[i].font),
            None => match self.find_font(key) {
                Some(i) => FontLookup::Instantiate(&self.base[i].font),
                None => FontLookup::NotFound,
            },
        }
    }

    /// Registers `font` under `key`, unless a font is registered there
    /// already.
    pub fn insert_font(&mut self, key: &FontKey, font: B)
        requires
            old(self).wf(),
        ensures
            final(self).wf(),
            final(self).fonts() == with_font(old(self).fonts(), *key, font),
            final(self).sized_fonts() == old(self).sized_fonts(),
    {
        if self.find_font(key).is_some() {
            return ;
        }
        let ghost pairs = base_pairs(self.base@);
        proof {
            lemma_assoc_push(pairs, *key, font);
        }
        let ghost sized_before = self.sized_fonts();
        self.base.push(BaseEntry { key: *key, font });
        assert(base_pairs(self.base@) =~= pairs.push((*key, font)));
        assert(self.sized_fonts() == sized_before);
        assert forall|k: SizedKey| #[trigger]
            self.sized_fonts().contains_key(k) implies self.fonts().contains_key(k.0) by {
            old(self).lemma_sized_has_font(k);
        }
    }

    /// Caches `font` under the triple, unless its font is not registered or
    /// an object is cached there already.
    pub fn insert_sized(
        &mut self,
        key: &FontKey,
        size: FontSize,
        variations: &[FontVariation],
        font: S,
    )
        requires
            old(self).wf(),
        ensures
            final(self).wf(),
            final(self).fonts() == old(self).fonts(),
            final(self).sized_fonts() == with_sized(
                old(self).fonts(),
                old(self).sized_fonts(),
                (*key, size, variations@),
                font,
            ),
    {
        if self.find_font(key).is_none() || self.find_sized(key, size, variations).is_some() {
            return ;
        }
        let ghost pairs = sized_pairs(self.sized@);
        let ghost wanted = (*key, size, variations@);
        proof {
            lemma_assoc_push(pairs, wanted, font);
        }
        let owned = copy_variations(variations);
        self.sized.push(SizedEntry { key: *key, size, variations: owned, font });
        assert(sized_pairs(self.sized@) =~= pairs.push((wanted, font)));
        assert forall|k: SizedKey| #[trigger]
            self.sized_fonts().contains_key(k) implies self.fonts().contains_key(k.0) by {
            if k != wanted {
                old(self).lemma_sized_has_font(k);
            }
        }
    }

    /// Drops the sized object cached under the triple, if there is one.
    pub fn remove_sized(&mut self, key: &FontKey, size: FontSize, variations: &[FontVariation])
        requires
            old(self).wf(),
        ensures
            final(self).wf(),
            final(self).fonts() == old(self).fonts(),
            final(self).sized_fonts() == old(self).sized_fonts().remove((*key, size, variations@)),
    {
        match self.find_sized(key, size, variations) {
            Some(i) => {
                let ghost pairs = sized_pairs(self.sized@);
                proof {
                    lemma_assoc_remove(pairs, i as int);
                }
                self.sized.remove(i);
                assert(sized_pairs(self.sized@) =~= pairs.remove(i as int));
                assert forall|k: SizedKey| #[trigger]
                    self.sized_fonts().contains_key(k) implies self.fonts().contains_key(k.0) by {
                    old(self).lemma_sized_has_font(k);
                }
            },
            None => {
                assert(self.sized_fonts().remove((*key, size, variations@))
                    =~= self.sized_fonts());
            },
        }
    }

    /// Drops the font registered under `key` and every sized object made
    /// from it.
    pub fn remove_font(&mut self, key: &FontKey)
        requires
            old(self).wf(),
        ensures
            final(self).wf(),
            final(self).fonts() == old(self).fonts().remove(*key),
            final(self).sized_fonts() == without_font(old(self).sized_fonts(), *key),
    {
        let ghost sized_before = self.sized_fonts();
        match self.find_font(key) {
            Some(i) => {
                let ghost pairs = base_pairs(self.base@);
                proof {
                    lemma_assoc_remove(pairs, i as int);
                }
                self.base.remove(i);
                assert(base_pairs(self.base@) =~= pairs.remove(i as int));
            },
            None => {
                assert(self.fonts().remove(*key) =~= self.fonts());
                proof {
                    assert forall|k: SizedKey| #[trigger]
                        sized_before.contains_key(k) implies k.0 != *key by {
                        self.lemma_sized_has_font(k);
                    }
                    assert(without_font(sized_before, *key) =~= sized_before);
                }
                return ;
            },
        }
        let ghost fonts_after = self.fonts();
        let mut i: usize = 0;
        while i < self.sized.len()
            invariant
                i <= self.sized.len(),
                self.fonts() == fonts_after,
                fonts_after == old(self).fonts().remove(*key),
                distinct_keys(base_pairs(self.base@)),
                distinct_keys(sized_pairs(self.sized@)),
                forall|j: int| 0 <= j < i ==> (#[trigger] sized_pairs(self.sized@)[j]).0.0 != *key,
                forall|k: SizedKey|
                    k.0 != *key ==> (#[trigger] self.sized_fonts().contains_key(k)
                        <==> sized_before.contains_key(k)),
                forall|k: SizedKey|
                    k.0 != *key && #[trigger] self.sized_fonts().contains_key(k)
                        ==> self.sized_fonts()[k] == sized_before[k],
                forall|k: SizedKey| #[trigger]
                    sized_before.contains_key(k) ==> old(self).fonts().contains_key(k.0),
            decreases self.sized.len() - i,
        {
            let ghost pairs = sized_pairs(self.sized@);
            let ghost sized_now = self.sized_fonts();
            if self.sized[i].key.0 == key.0 && self.sized[i].key.1 == key.1 {
                proof {
                    lemma_assoc_remove(pairs, i as int);
                    assert(pairs[i as int].0.0 == *key);
                }
                self.sized.remove(i);
                proof {
                    assert(sized_pairs(self.sized@) =~= pairs.remove(i as int));
                    assert(self.sized_fonts() == sized_now.remove(pairs[i as int].0));
                    assert forall|k: SizedKey| k.0 != *key implies (#[trigger]
                        self.sized_fonts().contains_key(k) <==> sized_before.contains_key(k)) by {
                        assert(sized_now.contains_key(k) <==> sized_before.contains_key(k));
                    }
                    assert forall|k: SizedKey|
                        k.0 != *key && #[trigger] self.sized_fonts().contains_key(
                            k,
                        ) implies self.sized_fonts()[k] == sized_before[k] by {
                        assert(sized_now.contains_key(k));
                    }
                    assert forall|j: int| 0 <= j < i implies (#[trigger] sized_pairs(
                        self.sized@,
                    )[j]).0.0 != *key by {
                        assert(sized_pairs(self.sized@)[j] == pairs[j]);
                    }
                }
            } else {
                assert(pairs[i as int].0.0 != *key);
                i += 1;
            }
        }
        proof {
            let pairs = sized_pairs(self.sized@);
            assert forall|k: SizedKey| #[trigger]
                self.sized_fonts().contains_key(k) implies k.0 != *key by {
                let j = index_of_key(pairs, k);
                assert(pairs[j].0 == k);
            }
            assert(self.sized_fonts() =~= without_font(sized_before, *key));
        }
    }
}

/// Instantiating once. After a sized object was cached under a triple,
/// looking the triple up gives an object cached under it, the same one at
/// every lookup, and offering another object for the triple changes nothing.
pub proof fn lemma_cached_once<B, S>(
    fonts: Map<FontKey, B>,
    sized: Map<SizedKey, S>,
    key: SizedKey,
    first: S,
    second: S,
)
    requires
        fonts.contains_key(key.0),
    ensures
        ({
            let after = with_sized(fonts, sized, key, first);
            &&& lookup_in(fonts, after, key) == FontLookup::<B, S>::Cached(&after[key])
            &&& !sized.contains_key(key) ==> after[key] == first
            &&& sized.contains_key(key) ==> after[key] == sized[key]
            &&& with_sized(fonts, after, key, second) == after
        }),
{
}

/// Deleting a font. Once a font is gone, no size and no variation
/// settings find anything under its key, whatever was cached before.
pub proof fn lemma_deleted_font_not_found<B, S>(
    fonts: Map<FontKey, B>,
    sized: Map<SizedKey, S>,
    key: FontKey,
    size: FontSize,
    variations: Seq<FontVariation>,
)
    ensures
        lookup_in(fonts.remove(key), without_font(sized, key), (key, size, variations))
            == FontLookup::<B, S>::NotFound,
{
}

/// Deleting a font leaves every other font and its sized objects in place.
pub proof fn lemma_deleted_font_keeps_others<B, S>(
    fonts: Map<FontKey, B>,
    sized: Map<SizedKey, S>,
    key: FontKey,
    other: SizedKey,
)
    requires
        other.0 != key,
    ensures
        lookup_in(fonts.remove(key), without_font(sized, key), other) == lookup_in(
            fonts,
            sized,
            other,
        ),
{
}

} // verus!
