use vstd::prelude::*;

verus! {

/// Mathematical model of a JSON document.
pub enum JsonValue {
    Null,
    Bool(bool),
    /// A number, kept in the textual form in which it was written.
    Number(Seq<char>),
    Str(Seq<char>),
    Array(Seq<JsonValue>),
    Object(Map<Seq<char>, JsonValue>),
}

/// A JSON document held in memory.
#[derive(Debug)]
pub enum Json {
    Null,
    Bool(bool),
    /// A number, kept in the textual form in which it was written.
    Number(String),
    Str(String),
    Array(Vec<Json>),
    Object(JsonMap),
}

/// The members of a JSON object: a list of (key, value) entries in which
/// no key occurs twice.
#[derive(Debug)]
pub struct JsonMap {
    entries: Vec<(String, Json)>,
}

/// No two entries of `s` share a key.
pub open spec fn keys_distinct(s: Seq<(String, Json)>) -> bool {
    forall|i: int, j: int|
        #![trigger s[i], s[j]]
        0 <= i < j < s.len() ==> s[i].0@ != s[j].0@
}

/// The model of a JSON document.
pub open spec fn json_view(j: Json) -> JsonValue
    decreases j,
{
    match j {
        Json::Null => JsonValue::Null,
        Json::Bool(b) => JsonValue::Bool(b),
        Json::Number(n) => JsonValue::Number(n@),
        Json::Str(s) => JsonValue::Str(s@),
        Json::Array(items) => JsonValue::Array(items_view(items@)),
        Json::Object(m) => JsonValue::Object(m.members()),
    }
}

/// The models of a sequence of JSON documents.
pub open spec fn items_view(s: Seq<Json>) -> Seq<JsonValue>
    decreases s,
{
    if s.len() == 0 {
        Seq::empty()
    } else {
        items_view(s.subrange(0, s.len() - 1)).push(json_view(s[s.len() - 1]))
    }
}

/// The map from keys to member models described by a list of entries.
spec fn entries_view(s: Seq<(String, Json)>) -> Map<Seq<char>, JsonValue>
    decreases s,
{
    if s.len() == 0 {
        Map::empty()
    } else {
        entries_view(s.subrange(0, s.len() - 1)).insert(
            s[s.len() - 1].0@,
            json_view(s[s.len() - 1].1),
        )
    }
}

impl View for Json {
    type V = JsonValue;

    open spec fn view(&self) -> JsonValue {
        json_view(*self)
    }
}

impl View for JsonMap {
    type V = Map<Seq<char>, JsonValue>;

    open spec fn view(&self) -> Map<Seq<char>, JsonValue> {
        self.members()
    }
}

/// The key set of `entries_view(s)` is the set of keys in `s`.
proof fn lemma_entries_dom(s: Seq<(String, Json)>, k: Seq<char>)
    ensures
        entries_view(s).contains_key(k) <==> exists|i: int| 0 <= i < s.len() && #[trigger] s[i].0@ == k,
    decreases s.len(),
{
    if s.len() > 0 {
        let init = s.subrange(0, s.len() - 1);
        lemma_entries_dom(init, k);
        if entries_view(init).contains_key(k) {
            let i = choose|i: int| 0 <= i < init.len() && #[trigger] init[i].0@ == k;
            assert(s[i].0@ == k);
        }
        if exists|i: int| 0 <= i < s.len() && #[trigger] s[i].0@ == k {
            let i = choose|i: int| 0 <= i < s.len() && #[trigger] s[i].0@ == k;
            if i < s.len() - 1 {
                assert(init[i].0@ == k);
            }
        }
    }
}

/// In a list without repeated keys, each entry gives the member for its key.
proof fn lemma_entries_index(s: Seq<(String, Json)>, i: int)
    requires
        keys_distinct(s),
        0 <= i < s.len(),
    ensures
        entries_view(s).contains_key(s[i].0@),
        entries_view(s)[s[i].0@] == json_view(s[i].1),
    decreases s.len(),
{
    let last = s.len() - 1;
    if i < last {
        let init = s.subrange(0, last);
        assert forall|a: int, b: int| 0 <= a < b < init.len() implies #[trigger] init[a].0@
            != #[trigger] init[b].0@ by {
            assert(s[a] == init[a] && s[b] == init[b]);
        }
        assert(init[i] == s[i]);
        lemma_entries_index(init, i);
        assert(s[i].0@ != s[last].0@);
    }
}

/// The members of a list without repeated keys, described entry by entry.
proof fn lemma_entries_members(s: Seq<(String, Json)>)
    requires
        keys_distinct(s),
    ensures
        forall|k: Seq<char>|
            entries_view(s).contains_key(k) <==> exists|i: int|
                0 <= i < s.len() && #[trigger] s[i].0@ == k,
        forall|i: int|
            0 <= i < s.len() ==> entries_view(s).contains_key(#[trigger] s[i].0@) && entries_view(
                s,
            )[s[i].0@] == json_view(s[i].1),
{
    assert forall|k: Seq<char>|
        entries_view(s).contains_key(k) <==> exists|i: int|
            0 <= i < s.len() && #[trigger] s[i].0@ == k by {
        lemma_entries_dom(s, k);
    }
    assert forall|i: int|
        0 <= i < s.len() implies entries_view(s).contains_key(#[trigger] s[i].0@) && entries_view(
            s,
        )[s[i].0@] == json_view(s[i].1) by {
        lemma_entries_index(s, i);
    }
}

impl JsonMap {
    #[verifier::type_invariant]
    spec fn inv(self) -> bool {
        keys_distinct(self.entries@)
    }

    /// The members of the object, as a map from key to model.
    pub closed spec fn members(self) -> Map<Seq<char>, JsonValue>
        decreases self,
    {
        entries_view(self.entries@)
    }

    /// An object without members.
    pub fn new() -> (m: JsonMap)
        ensures
            m@ == Map::<Seq<char>, JsonValue>::empty(),
    {
        let m = JsonMap { entries: Vec::new() };
        assert(m.entries@.len() == 0);
        m
    }

    /// Whether the object has a member with the given key.
    pub fn contains_key(&self, key: &String) -> (b: bool)
        ensures
            b == self@.contains_key(key@),
    {
        proof {
            use_type_invariant(self);
            lemma_entries_members(self.entries@);
        }
        find_key(&self.entries, key).is_some()
    }

    /// Removes the member with the given key and returns it.
    pub fn remove(&mut self, key: &String) -> (r: Option<Json>)
        ensures
            final(self)@ == old(self)@.remove(key@),
            match r {
                Some(v) => old(self)@.contains_key(key@) && v@ == old(self)@[key@],
                None => !old(self)@.contains_key(key@),
            },
    {
        proof {
            use_type_invariant(&*self);
            lemma_entries_members(self.entries@);
        }
        let mut entries: Vec<(String, Json)> = Vec::new();
        std::mem::swap(&mut entries, &mut self.entries);
        let ghost before = entries@;
        match find_key(&entries, key) {
            Some(i) => {
                let (_, v) = entries.remove(i);
                let ghost after = entries@;
                assert forall|a: int, b: int| 0 <= a < b < after.len() implies #[trigger] after[a].0@
                    != #[trigger] after[b].0@ by {
                    let a0 = if a < i { a } else { a + 1 };
                    let b0 = if b < i { b } else { b + 1 };
                    assert(after[a] == before[a0] && after[b] == before[b0]);
                }
                proof {
                    lemma_entries_members(after);
                    assert forall|k: Seq<char>| #[trigger]
                        entries_view(after).contains_key(k) <==> entries_view(before).remove(
                            key@,
                        ).contains_key(k) by {
                        if entries_view(after).contains_key(k) {
                            let j = choose|j: int| 0 <= j < after.len() && #[trigger] after[j].0@ == k;
                            let j0 = if j < i { j } else { j + 1 };
                            assert(after[j] == before[j0]);
                        }
                        if entries_view(before).remove(key@).contains_key(k) {
                            let j = choose|j: int| 0 <= j < before.len() && #[trigger] before[j].0@ == k;
                            assert(j != i);
                            let j1 = if j < i { j } else { j - 1 };
                            assert(after[j1] == before[j]);
                        }
                    }
                    assert forall|k: Seq<char>| #[trigger]
                        entries_view(after).contains_key(k) implies entries_view(after)[k]
                        == entries_view(before)[k] by {
                        let j = choose|j: int| 0 <= j < after.len() && #[trigger] after[j].0@ == k;
                        let j0 = if j < i { j } else { j + 1 };
                        assert(after[j] == before[j0]);
                    }
                    assert(entries_view(after) =~= entries_view(before).remove(key@));
                }
                self.entries = entries;
                Some(v)
            },
            None => {
                proof {
                    assert(entries_view(before) =~= entries_view(before).remove(key@));
                }
                self.entries = entries;
                None
            },
        }
    }

    /// Sets the member with the given key, replacing any earlier value.
    pub fn insert(&mut self, key: String, value: Json)
        ensures
            final(self)@ == old(self)@.insert(key@, value@),
    {
        let ghost start = self@;
        let _ = self.remove(&key);
        proof {
            use_type_invariant(&*self);
            lemma_entries_members(self.entries@);
        }
        let mut entries: Vec<(String, Json)> = Vec::new();
        std::mem::swap(&mut entries, &mut self.entries);
        let ghost before = entries@;
        entries.push((key, value));
        let ghost after = entries@;
        proof {
            assert(after.subrange(0, after.len() - 1) =~= before);
            assert forall|a: int, b: int| 0 <= a < b < after.len() implies #[trigger] after[a].0@
                != #[trigger] after[b].0@ by {
                if b == after.len() - 1 {
                    assert(after[a] == before[a]);
                    assert(!entries_view(before).contains_key(after[b].0@));
                } else {
                    assert(after[a] == before[a] && after[b] == before[b]);
                }
            }
            assert(entries_view(after) =~= start.insert(key@, value@));
        }
        self.entries = entries;
    }

    /// Hands out the entries of the object, each key once.
    pub fn into_entries(self) -> (r: Vec<(String, Json)>)
        ensures
            keys_distinct(r@),
            forall|i: int|
                0 <= i < r@.len() ==> self@.contains_key(#[trigger] r@[i].0@) && self@[r@[i].0@]
                    == r@[i].1@,
            forall|k: Seq<char>|
                self@.contains_key(k) ==> exists|i: int| 0 <= i < r@.len() && #[trigger] r@[i].0@ == k,
    {
        proof {
            use_type_invariant(&self);
            lemma_entries_members(self.entries@);
        }
        self.entries
    }
}

/// The position of the entry of `entries` with the given key, if any.
fn find_key(entries: &Vec<(String, Json)>, key: &String) -> (r: Option<usize>)
    ensures
        match r {
            Some(i) => i < entries@.len() && entries@[i as int].0@ == key@,
            None => forall|i: int| 0 <= i < entries@.len() ==> #[trigger] entries@[i].0@ != key@,
        },
{
    let n = entries.len();
    for i in 0..n
        invariant
            n == entries@.len(),
            forall|j: int| 0 <= j < i ==> #[trigger] entries@[j].0@ != key@,
    {
        if entries[i].0 == *key {
            return Some(i);
        }
    }
    None
}

/// The member `key` of `t`, or `null` when `t` has no such member.
pub open spec fn member_or_null(t: Map<Seq<char>, JsonValue>, key: Seq<char>) -> JsonValue {
    if t.contains_key(key) {
        t[key]
    } else {
        JsonValue::Null
    }
}

/// Applies `patch` to `target`.
///
/// When both are objects, every member of the patch whose value is `null`
/// deletes that member of the target, every other member of the patch is
/// applied in turn to the target's member of the same key (or to `null` when
/// there is none), and the members that the patch does not name are kept.
/// Otherwise the patch replaces the target.
pub open spec fn merge_patch(target: JsonValue, patch: JsonValue) -> JsonValue
    decreases patch,
{
    match patch {
        JsonValue::Object(p) => match target {
            JsonValue::Object(t) => JsonValue::Object(
                Map::new(
                    |k: Seq<char>|
                        if p.contains_key(k) {
                            !(p[k] is Null)
                        } else {
                            t.contains_key(k)
                        },
                    |k: Seq<char>|
                        if p.contains_key(k) {
                            merge_patch(member_or_null(t, k), p[k])
                        } else {
                            t[k]
                        },
                ),
            ),
            _ => patch,
        },
        _ => patch,
    }
}

/// Returns `target` with `patch` applied.
fn merged(target: Json, patch: Json) -> (r: Json)
    ensures
        r@ == merge_patch(target@, patch@),
    decreases patch,
{
    let ghost whole_patch = patch;
    match patch {
        Json::Object(pm) => match target {
            Json::Object(tm) => {
                let ghost p = pm@;
                let ghost t = tm@;
                let mut tm = tm;
                proof {
                    use_type_invariant(&pm);
                    lemma_entries_members(pm.entries@);
                }
                let ghost es = pm.entries@;
                let JsonMap { entries } = pm;
                let mut entries = entries;
                while entries.len() > 0
                    invariant
                        es == pm.entries@,
                        whole_patch == Json::Object(pm),
                        whole_patch == patch,
                        p == pm@,
                        keys_distinct(es),
                        forall|i: int|
                            0 <= i < es.len() ==> p.contains_key(#[trigger] es[i].0@) && p[es[i].0@]
                                == json_view(es[i].1),
                        forall|k: Seq<char>|
                            p.contains_key(k) ==> exists|i: int|
                                0 <= i < es.len() && #[trigger] es[i].0@ == k,
                        entries@.len() <= es.len(),
                        entries@ == es.subrange(0, entries@.len() as int),
                        forall|k: Seq<char>| #[trigger]
                            tm@.contains_key(k) <==> if (exists|i: int|
                                entries@.len() <= i < es.len() && #[trigger] es[i].0@ == k) {
                                !(p[k] is Null)
                            } else {
                                t.contains_key(k)
                            },
                        forall|k: Seq<char>| #[trigger]
                            tm@.contains_key(k) ==> tm@[k] == if (exists|i: int|
                                entries@.len() <= i < es.len() && #[trigger] es[i].0@ == k) {
                                merge_patch(member_or_null(t, k), p[k])
                            } else {
                                t[k]
                            },
                    decreases entries@.len(),
                {
                    let ghost n: int = entries@.len() - 1;
                    let (key, value) = entries.pop().unwrap();
                    proof {
                        assert(es[n as int] == (key, value));
                        assert forall|i: int| n < i < es.len() implies #[trigger] es[i].0@ != key@ by {
                            assert(es[n].0@ != es[i].0@);
                        }
                        assert(whole_patch->Object_0 == pm);
                        assert(decreases_to!(whole_patch => whole_patch->Object_0));
                        assert(decreases_to!(pm => pm.entries));
                        assert(decreases_to!(pm.entries => pm.entries@));
                        assert(decreases_to!(pm.entries@ => pm.entries@[n]));
                        assert(decreases_to!(pm.entries@[n] => pm.entries@[n].1));
                        assert(decreases_to!(whole_patch => value));
                    }
                    match value {
                        Json::Null => {
                            let _ = tm.remove(&key);
                        },
                        other => {
                            let current = tm.remove(&key);
                            let base = match current {
                                Some(c) => c,
                                None => Json::Null,
                            };
                            let updated = merged(base, other);
                            tm.insert(key, updated);
                        },
                    }
                }
                proof {
                    assert(tm@ =~= match merge_patch(JsonValue::Object(t), JsonValue::Object(p)) {
                        JsonValue::Object(mm) => mm,
                        _ => tm@,
                    });
                }
                Json::Object(tm)
            },
            _ => Json::Object(pm),
        },
        other => other,
    }
}

/// Applies `patch` to `target` in place: objects are merged member by member,
/// a `null` member of the patch deletes that member, and any other patch
/// replaces the target.
pub fn merge(target: &mut Json, patch: Json)
    ensures
        final(target)@ == merge_patch(old(target)@, patch@),
{
    let mut current = Json::Null;
    std::mem::swap(&mut current, target);
    *target = merged(current, patch);
}

/// No object inside `v`, `v` included, has a member whose value is `null`.
pub open spec fn null_free(v: JsonValue) -> bool
    decreases v,
{
    match v {
        JsonValue::Object(m) => forall|k: Seq<char>|
            #[trigger] m.contains_key(k) ==> !(m[k] is Null) && null_free(m[k]),
        _ => true,
    }
}

/// An empty object as patch leaves an object unchanged.
pub proof fn lemma_merge_empty_patch(t: Map<Seq<char>, JsonValue>)
    ensures
        merge_patch(JsonValue::Object(t), JsonValue::Object(Map::empty())) == JsonValue::Object(t),
{
    let r = merge_patch(JsonValue::Object(t), JsonValue::Object(Map::empty()));
    if let JsonValue::Object(rm) = r {
        assert(rm =~= t);
    }
}

/// A patch that is not an object, or applied to a target that is not an
/// object, replaces the target.
pub proof fn lemma_merge_replaces(target: JsonValue, patch: JsonValue)
    requires
        !(target is Object) || !(patch is Object),
    ensures
        merge_patch(target, patch) == patch,
{
}

/// Members of an object target that the patch does not name keep their values.
pub proof fn lemma_merge_keeps_unnamed(
    t: Map<Seq<char>, JsonValue>,
    p: Map<Seq<char>, JsonValue>,
    key: Seq<char>,
)
    requires
        !p.contains_key(key),
    ensures
        merge_patch(JsonValue::Object(t), JsonValue::Object(p)) matches JsonValue::Object(r) && (
        r.contains_key(key) <==> t.contains_key(key)) && (t.contains_key(key) ==> r[key] == t[key]),
{
}

/// A `null` member of the patch deletes that member of an object target.
pub proof fn lemma_merge_null_deletes(
    t: Map<Seq<char>, JsonValue>,
    p: Map<Seq<char>, JsonValue>,
    key: Seq<char>,
)
    requires
        p.contains_key(key),
        p[key] is Null,
    ensures
        merge_patch(JsonValue::Object(t), JsonValue::Object(p)) matches JsonValue::Object(r)
            && !r.contains_key(key),
{
}

/// A member of the patch that is neither `null` nor an object takes the place
/// of the target's member of the same key.
pub proof fn lemma_merge_member_overrides(
    t: Map<Seq<char>, JsonValue>,
    p: Map<Seq<char>, JsonValue>,
    key: Seq<char>,
)
    requires
        p.contains_key(key),
        !(p[key] is Null),
        !(p[key] is Object),
    ensures
        merge_patch(JsonValue::Object(t), JsonValue::Object(p)) matches JsonValue::Object(r)
            && r.contains_key(key) && r[key] == p[key],
{
    lemma_merge_replaces(member_or_null(t, key), p[key]);
}

/// A member of the patch that is an object replaces a member of an object
/// target that is missing or is not an object.
pub proof fn lemma_merge_object_member_replaces_non_object(
    t: Map<Seq<char>, JsonValue>,
    p: Map<Seq<char>, JsonValue>,
    key: Seq<char>,
)
    requires
        p.contains_key(key),
        p[key] is Object,
        !(t.contains_key(key) && t[key] is Object),
    ensures
        merge_patch(JsonValue::Object(t), JsonValue::Object(p)) matches JsonValue::Object(r)
            && r.contains_key(key) && r[key] == p[key],
{
    lemma_merge_replaces(member_or_null(t, key), p[key]);
}

/// When target and patch both have an object at `key`, the merged member is an
/// object that keeps every member of the target's object that the patch's
/// object does not name.
pub proof fn lemma_merge_nested_keeps_unnamed(
    t: Map<Seq<char>, JsonValue>,
    p: Map<Seq<char>, JsonValue>,
    key: Seq<char>,
    inner: Seq<char>,
)
    requires
        t.contains_key(key),
        p.contains_key(key),
        t[key] matches JsonValue::Object(tk) && tk.contains_key(inner),
        p[key] matches JsonValue::Object(pk) && !pk.contains_key(inner),
    ensures
        merge_patch(JsonValue::Object(t), JsonValue::Object(p)) matches JsonValue::Object(r)
            && r.contains_key(key) && (r[key] matches JsonValue::Object(rk) && rk.contains_key(
            inner,
        ) && rk[inner] == t[key]->Object_0[inner]),
{
    if let JsonValue::Object(tk) = t[key] {
        if let JsonValue::Object(pk) = p[key] {
            lemma_merge_keeps_unnamed(tk, pk, inner);
        }
    }
}

/// Merging an object patch works member by member: the result's member at a
/// key named by the patch with a value that is not `null` is the same as
/// merging only that one member into the target.
pub proof fn lemma_merge_member_wise(
    t: Map<Seq<char>, JsonValue>,
    p: Map<Seq<char>, JsonValue>,
    key: Seq<char>,
)
    requires
        p.contains_key(key),
        !(p[key] is Null),
    ensures
        merge_patch(JsonValue::Object(t), JsonValue::Object(p)) matches JsonValue::Object(r)
            && merge_patch(
            JsonValue::Object(t),
            JsonValue::Object(Map::empty().insert(key, p[key])),
        ) matches JsonValue::Object(r1) && r.contains_key(key) && r1.contains_key(key) && r[key]
            == r1[key],
{
}

/// Applying a patch without `null` members a second time changes nothing.
pub proof fn lemma_merge_idempotent(target: JsonValue, patch: JsonValue)
    requires
        null_free(patch),
    ensures
        merge_patch(merge_patch(target, patch), patch) == merge_patch(target, patch),
    decreases patch,
{
    if let JsonValue::Object(p) = patch {
        let once = merge_patch(target, patch);
        if let JsonValue::Object(t) = target {
            if let JsonValue::Object(r1) = once {
                let twice = merge_patch(once, patch);
                if let JsonValue::Object(r2) = twice {
                    assert forall|k: Seq<char>| #[trigger] r2.contains_key(k) implies r2[k]
                        == r1[k] by {
                        if p.contains_key(k) {
                            lemma_merge_idempotent(member_or_null(t, k), p[k]);
                        }
                    }
                    assert(r2 =~= r1);
                }
            }
        } else {
            let twice = merge_patch(once, patch);
            if let JsonValue::Object(r2) = twice {
                assert forall|k: Seq<char>| #[trigger] r2.contains_key(k) implies r2[k] == p[k] by {
                    lemma_merge_idempotent(JsonValue::Null, p[k]);
                }
                assert(r2 =~= p);
            }
        }
    }
}

} // verus!
