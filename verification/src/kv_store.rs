//! The in-memory key-value store: named contexts (namespaces), each holding
//! string values under string keys. Scripts and proxied calls are recorded in
//! contexts of their own.
use vstd::prelude::*;

use crate::json::{compact_json, json_compact};
use crate::keyed::{key_index, keys_unique, lemma_map_of_at, lemma_same_keys, map_of, KeyedVec};
use crate::proxy::{proxy_call_json, ProxyCall};
use crate::script::{script_json, Script};

verus! {

/// The context that run scripts are recorded in.
pub const SCRIPT_CONTEXT: &'static str = "_catch_script";

/// The context that proxied calls are recorded in.
pub const PROXY_CONTEXT: &'static str = "_catch_proxy";

/// The context a request names when it names none.
pub const DEFAULT_CONTEXT: &'static str = "default";

/// One context: values under keys, in insertion order.
pub type Namespace = KeyedVec<String>;

/// The contents of a store: for each context, its keys and values.
pub type StoreModel = Map<Seq<char>, Map<Seq<char>, Seq<char>>>;

/// The texts a namespace holds.
pub open spec fn namespace_view(ns: Namespace) -> Map<Seq<char>, Seq<char>> {
    ns@.map_values(|s: String| s@)
}

/// The value under `key` in `context`, if both exist.
pub open spec fn kv_lookup(m: StoreModel, context: Seq<char>, key: Seq<char>) -> Option<Seq<char>> {
    if m.contains_key(context) && m[context].contains_key(key) {
        Some(m[context][key])
    } else {
        None
    }
}

/// The store after setting `key` to `value` in `context`, creating the context
/// when it does not exist.
pub open spec fn kv_insert(m: StoreModel, context: Seq<char>, key: Seq<char>, value: Seq<char>) -> StoreModel {
    m.insert(
        context,
        (if m.contains_key(context) {
            m[context]
        } else {
            Map::empty()
        }).insert(key, value),
    )
}

/// The store after removing `key` from `context`; the context itself stays,
/// and a missing context leaves the store as it is.
pub open spec fn kv_remove(m: StoreModel, context: Seq<char>, key: Seq<char>) -> StoreModel {
    if m.contains_key(context) {
        m.insert(context, m[context].remove(key))
    } else {
        m
    }
}

/// The contents that a listing of contexts and their entries describes.
pub open spec fn listing_view(s: Seq<(String, Vec<(String, String)>)>) -> StoreModel {
    map_of(s).map_values(|es: Vec<(String, String)>| map_of(es@).map_values(|x: String| x@))
}

/// A read gives back what the last write to the same context and key wrote.
pub proof fn law_read_your_write(m: StoreModel, context: Seq<char>, key: Seq<char>, value: Seq<char>)
    ensures
        kv_lookup(kv_insert(m, context, key, value), context, key) == Some(value),
{
}

/// A write leaves every other context and key as it was.
pub proof fn law_write_isolated(
    m: StoreModel,
    context: Seq<char>,
    key: Seq<char>,
    value: Seq<char>,
    other_context: Seq<char>,
    other_key: Seq<char>,
)
    requires
        other_context != context || other_key != key,
    ensures
        kv_lookup(kv_insert(m, context, key, value), other_context, other_key) == kv_lookup(
            m,
            other_context,
            other_key,
        ),
{
}

/// After a removal the key reads as absent.
pub proof fn law_removed_is_absent(m: StoreModel, context: Seq<char>, key: Seq<char>)
    ensures
        kv_lookup(kv_remove(m, context, key), context, key) is None,
{
}

/// A removal leaves every other context and key as it was.
pub proof fn law_remove_isolated(
    m: StoreModel,
    context: Seq<char>,
    key: Seq<char>,
    other_context: Seq<char>,
    other_key: Seq<char>,
)
    requires
        other_context != context || other_key != key,
    ensures
        kv_lookup(kv_remove(m, context, key), other_context, other_key) == kv_lookup(
            m,
            other_context,
            other_key,
        ),
{
}

/// The last of two writes to the same place wins; writing a value twice is writing it once.
pub proof fn law_last_write_wins(
    m: StoreModel,
    context: Seq<char>,
    key: Seq<char>,
    first: Seq<char>,
    second: Seq<char>,
)
    ensures
        kv_insert(kv_insert(m, context, key, first), context, key, second) == kv_insert(
            m,
            context,
            key,
            second,
        ),
{
    let base = if m.contains_key(context) {
        m[context]
    } else {
        Map::empty()
    };
    assert(base.insert(key, first).insert(key, second) =~= base.insert(key, second));
    assert(kv_insert(kv_insert(m, context, key, first), context, key, second) =~= kv_insert(
        m,
        context,
        key,
        second,
    ));
}

/// Removing what was just written to an existing context undoes the write as far
/// as reads can tell: the store is as if only the removal had happened.
pub proof fn law_remove_undoes_write(m: StoreModel, context: Seq<char>, key: Seq<char>, value: Seq<char>)
    requires
        m.contains_key(context),
    ensures
        kv_remove(kv_insert(m, context, key, value), context, key) == kv_remove(m, context, key),
{
    assert(m[context].insert(key, value).remove(key) =~= m[context].remove(key));
    assert(kv_remove(kv_insert(m, context, key, value), context, key) =~= kv_remove(
        m,
        context,
        key,
    ));
}

/// Contexts are never dropped: a write adds its context, a removal keeps every context.
pub proof fn law_contexts_persist(m: StoreModel, context: Seq<char>, key: Seq<char>, value: Seq<char>)
    ensures
        kv_insert(m, context, key, value).dom() == m.dom().insert(context),
        kv_remove(m, context, key).dom() == m.dom(),
{
    assert(kv_insert(m, context, key, value).dom() =~= m.dom().insert(context));
    if m.contains_key(context) {
        assert(kv_remove(m, context, key).dom() =~= m.dom());
    }
}

/// The texts of an optional string.
pub open spec fn opt_text(o: Option<String>) -> Option<Seq<char>> {
    match o {
        Some(s) => Some(s@),
        None => None,
    }
}

/// The key-value store.
pub struct KeyValueStoreWrapper {
    store: KeyedVec<Namespace>,
}

/// The key-value store.
pub type KeyValueStore = KeyValueStoreWrapper;

impl View for KeyValueStoreWrapper {
    type V = StoreModel;

    closed spec fn view(&self) -> StoreModel {
        self.store@.map_values(|ns: Namespace| namespace_view(ns))
    }
}

/// How a read of the store answers over HTTP: not found, a JSON document (a stored
/// JSON object or array, re-rendered compactly), or the stored text as it is.
#[derive(Debug)]
pub enum KvReply {
    NotFound,
    Json(String),
    Plain(String),
}

/// The context a request is about: its `X-Context` header, or `default`.
pub fn context_or_default(header: Option<&str>) -> (r: String)
    ensures
        r@ == (match header {
            Some(h) => h@,
            None => DEFAULT_CONTEXT@,
        }),
{
    match header {
        Some(h) => String::from_str(h),
        None => String::from_str(DEFAULT_CONTEXT),
    }
}

impl KeyValueStoreWrapper {
    /// Every context is well formed.
    pub closed spec fn wf(&self) -> bool {
        &&& self.store.wf()
        &&& forall|i: int| 0 <= i < self.store.entries().len() ==> (#[trigger] self.store.entries()[i]).1.wf()
    }

    proof fn lemma_context_at(&self, i: int)
        requires
            self.wf(),
            0 <= i < self.store.entries().len(),
        ensures
            self@.contains_key(self.store.entries()[i].0@),
            self@[self.store.entries()[i].0@] == namespace_view(self.store.entries()[i].1),
            self.store@[self.store.entries()[i].0@] == self.store.entries()[i].1,
    {
        self.store.lemma_wf();
        lemma_map_of_at(self.store.entries(), i);
    }

    /// An empty store.
    pub fn new() -> (r: Self)
        ensures
            r.wf(),
            r@ == StoreModel::empty(),
    {
        let r = KeyValueStoreWrapper { store: KeyedVec::new() };
        assert(r@ =~= StoreModel::empty());
        r
    }

    /// The value under `key` in `context`.
    pub fn get(&self, context: &str, key: &str) -> (r: Option<String>)
        requires
            self.wf(),
        ensures
            opt_text(r) == kv_lookup(self@, context@, key@),
    {
        match self.store.find(context) {
            None => {
                proof {
                    self.store.lemma_wf();
                }
                None
            },
            Some(i) => {
                proof {
                    self.lemma_context_at(i as int);
                }
                let ns = self.store.value_at(i);
                match ns.get(key) {
                    Some(v) => Some(v.clone()),
                    None => None,
                }
            },
        }
    }

    /// Sets `key` to `value` in `context`, creating the context when needed.
    pub fn insert(&mut self, context: &str, key: &str, value: &str) -> (r: String)
        requires
            old(self).wf(),
        ensures
            final(self).wf(),
            final(self)@ == kv_insert(old(self)@, context@, key@, value@),
            r@ == "Key Set"@,
    {
        let ghost before = self@;
        match self.store.find(context) {
            Some(i) => {
                proof {
                    self.lemma_context_at(i as int);
                }
                let ghost c = self.store.entries()[i as int].0@;
                let mut ns = self.store.take_at(i, KeyedVec::new());
                let ghost old_ns = ns;
                ns.insert(String::from_str(key), String::from_str(value));
                self.store.put_at(i, ns);
                proof {
                    assert forall|j: int| 0 <= j < self.store.entries().len() implies (
                    #[trigger] self.store.entries()[j]).1.wf() by {
                        if j != i {
                            assert(self.store.entries()[j] == old(self).store.entries()[j]);
                        }
                    }
                    assert(namespace_view(ns) =~= namespace_view(old_ns).insert(key@, value@));
                    assert(self@ =~= kv_insert(before, context@, key@, value@));
                }
            },
            None => {
                proof {
                    self.store.lemma_wf();
                }
                let mut ns: Namespace = KeyedVec::new();
                ns.insert(String::from_str(key), String::from_str(value));
                self.store.insert(String::from_str(context), ns);
                proof {
                    assert forall|j: int| 0 <= j < self.store.entries().len() implies (
                    #[trigger] self.store.entries()[j]).1.wf() by {
                        if j < old(self).store.entries().len() {
                            assert(self.store.entries()[j] == old(self).store.entries()[j]);
                        }
                    }
                    assert(namespace_view(ns) =~= Map::<Seq<char>, Seq<char>>::empty().insert(
                        key@,
                        value@,
                    ));
                    assert(self@ =~= kv_insert(before, context@, key@, value@));
                }
            },
        }
        String::from_str("Key Set")
    }

    /// Removes `key` from `context`; the context stays even when it empties.
    pub fn remove(&mut self, context: &str, key: &str) -> (r: String)
        requires
            old(self).wf(),
        ensures
            final(self).wf(),
            final(self)@ == kv_remove(old(self)@, context@, key@),
            old(self)@.contains_key(context@) ==> r@ == "Key Removed"@,
            !old(self)@.contains_key(context@) ==> r@ == "Key did not exist"@,
    {
        let ghost before = self@;
        match self.store.find(context) {
            Some(i) => {
                proof {
                    self.lemma_context_at(i as int);
                }
                let mut ns = self.store.take_at(i, KeyedVec::new());
                let ghost old_ns = ns;
                ns.remove(key);
                self.store.put_at(i, ns);
                proof {
                    assert forall|j: int| 0 <= j < self.store.entries().len() implies (
                    #[trigger] self.store.entries()[j]).1.wf() by {
                        if j != i {
                            assert(self.store.entries()[j] == old(self).store.entries()[j]);
                        }
                    }
                    assert(namespace_view(ns) =~= namespace_view(old_ns).remove(key@));
                    assert(self@ =~= kv_remove(before, context@, key@));
                }
                String::from_str("Key Removed")
            },
            None => {
                proof {
                    self.store.lemma_wf();
                }
                String::from_str("Key did not exist")
            },
        }
    }

    /// Every context with its entries, contexts and entries in insertion order.
    pub fn inner(&self) -> (r: Vec<(String, Vec<(String, String)>)>)
        requires
            self.wf(),
        ensures
            keys_unique(r@),
            forall|i: int| 0 <= i < r@.len() ==> keys_unique(#[trigger] r@[i].1@),
            listing_view(r@) == self@,
    {
        let n = self.store.len();
        let mut r: Vec<(String, Vec<(String, String)>)> = Vec::new();
        let mut i: usize = 0;
        while i < n
            invariant
                self.wf(),
                n == self.store.entries().len(),
                i <= n,
                r@.len() == i,
                forall|j: int| 0 <= j < i ==> (#[trigger] r@[j]).0 == self.store.entries()[j].0
                    && r@[j].1@ == self.store.entries()[j].1.entries(),
            decreases n - i,
        {
            let key = self.store.key_at(i).clone();
            let ns = self.store.value_at(i);
            assert(self.store.entries()[i as int].1.wf());
            let pairs = ns.to_pairs();
            r.push((key, pairs));
            i = i + 1;
        }
        proof {
            let s = self.store.entries();
            self.store.lemma_wf();
            assert forall|j: int| 0 <= j < s.len() implies #[trigger] s[j].0 == r@[j].0 by {}
            lemma_same_keys(s, r@);
            assert forall|j: int| 0 <= j < r@.len() implies keys_unique(#[trigger] r@[j].1@) by {
                assert(s[j].1.wf());
                s[j].1.lemma_wf();
            }
            assert forall|c: Seq<char>| #[trigger] listing_view(r@).contains_key(c) implies listing_view(
                r@,
            )[c] == self@[c] by {
                let j = key_index(r@, c);
                lemma_map_of_at(r@, j);
                assert(s[j].1.wf());
                s[j].1.lemma_wf();
                lemma_map_of_at(s, j);
                assert(map_of(r@[j].1@) == s[j].1@);
            }
            assert(listing_view(r@) =~= self@);
        }
        r
    }

    /// The JSON record of the script named `name`.
    pub fn get_script(&self, name: &str) -> (r: Result<String, String>)
        requires
            self.wf(),
        ensures
            match kv_lookup(self@, SCRIPT_CONTEXT@, name@) {
                Some(json) => r is Ok && r->Ok_0@ == json,
                None => r is Err && r->Err_0@ == "Script not found"@,
            },
    {
        match self.get(SCRIPT_CONTEXT, name) {
            Some(json) => Ok(json),
            None => Err(String::from_str("Script not found")),
        }
    }

    /// Records a script under its name.
    pub fn insert_script(&mut self, script_with_result: &Script) -> (r: String)
        requires
            old(self).wf(),
        ensures
            final(self).wf(),
            final(self)@ == kv_insert(
                old(self)@,
                SCRIPT_CONTEXT@,
                script_with_result@.name,
                script_json(script_with_result@),
            ),
            r@ == "Key Set"@,
    {
        let json = script_with_result.as_json();
        self.insert(SCRIPT_CONTEXT, script_with_result.name(), json.as_str())
    }

    /// Records a proxied call under its id.
    pub fn insert_proxy_call(&mut self, call: &ProxyCall) -> (r: String)
        requires
            old(self).wf(),
            call.wf(),
        ensures
            final(self).wf(),
            final(self)@ == kv_insert(old(self)@, PROXY_CONTEXT@, call@.id, proxy_call_json(call@)),
            r@ == "Key Set"@,
    {
        let json = call.as_json();
        self.insert(PROXY_CONTEXT, call.id(), json.as_str())
    }

    /// How a read of `key` in `context` answers over HTTP.
    pub fn get_reply(&self, context: &str, key: &str) -> (r: KvReply)
        requires
            self.wf(),
        ensures
            match kv_lookup(self@, context@, key@) {
                None => r is NotFound,
                Some(v) => match compact_json(v) {
                    Some((true, text)) => r is Json && r->Json_0@ == text,
                    _ => r is Plain && r->Plain_0@ == v,
                },
            },
    {
        match self.get(context, key) {
            None => KvReply::NotFound,
            Some(value) => match json_compact(value.as_str()) {
                Some((true, text)) => KvReply::Json(text),
                _ => KvReply::Plain(value),
            },
        }
    }
}

} // verus!
