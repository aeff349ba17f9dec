//! The config document: a JSON object keyed by platform name, each entry an
//! object holding at least an `appId` string.
use vstd::prelude::*;

verus! {

/// A JSON value. Numbers keep the text they were written with.
#[derive(Debug, PartialEq)]
pub enum Json {
    Null,
    Bool(bool),
    Number(String),
    Str(String),
    Array(Vec<Json>),
    Object(Vec<(String, Json)>),
}

/// Why the config document could not be loaded, updated or stored.
#[derive(Debug, PartialEq)]
pub enum ConfigError {
    /// The document, or the entry of the platform, is not a JSON object.
    InvalidConfig,
    /// The stored text is not JSON; holds the parser's diagnostic.
    Parse(String),
    /// The file could not be read or written; holds the system's message.
    Io(String),
}

/// The text shown for an error.
pub open spec fn error_text(e: ConfigError) -> Seq<char> {
    match e {
        ConfigError::InvalidConfig => "Invalid config found"@,
        ConfigError::Parse(m) => m@,
        ConfigError::Io(m) => m@,
    }
}

impl ConfigError {
    /// The text shown for the error.
    pub fn message(&self) -> (r: String)
        ensures
            r@ == error_text(*self),
    {
        match self {
            ConfigError::InvalidConfig => String::from_str("Invalid config found"),
            ConfigError::Parse(m) => m.clone(),
            ConfigError::Io(m) => m.clone(),
        }
    }
}

/// The key that holds a platform's application identifier.
pub const APP_ID_KEY: &'static str = "appId";

/// The members of an object, each key by its text.
pub open spec fn members(e: Seq<(String, Json)>) -> Seq<(Seq<char>, Json)> {
    e.map_values(|p: (String, Json)| (p.0@, p.1))
}

/// `i` is the index of the first member keyed `k`, or the number of members
/// where no member is keyed `k`.
pub open spec fn is_first_key(m: Seq<(Seq<char>, Json)>, k: Seq<char>, i: int) -> bool {
    &&& 0 <= i <= m.len()
    &&& forall|j: int| 0 <= j < i ==> (#[trigger] m[j]).0 != k
    &&& i < m.len() ==> m[i].0 == k
}

/// `after` is `before` with the member at `i` (the first keyed `k`) replaced,
/// or with a member appended where `i` is past the end; its key is `k`.
pub open spec fn put_at(
    before: Seq<(Seq<char>, Json)>,
    after: Seq<(Seq<char>, Json)>,
    k: Seq<char>,
    i: int,
) -> bool {
    &&& after.len() == (if i < before.len() { before.len() as int } else { before.len() + 1int })
    &&& forall|j: int| 0 <= j < before.len() && j != i ==> after[j] == #[trigger] before[j]
    &&& after[i].0 == k
}

/// The members of `j` where it is an object.
pub open spec fn object_members(j: Json) -> Option<Seq<(Seq<char>, Json)>> {
    match j {
        Json::Object(e) => Some(members(e@)),
        _ => None,
    }
}

/// `j` is the string `s`.
pub open spec fn is_str(j: Json, s: Seq<char>) -> bool {
    match j {
        Json::Str(t) => t@ == s,
        _ => false,
    }
}

/// The index of the first member keyed `k`, or the number of members where
/// none is.
pub open spec fn first_key(m: Seq<(Seq<char>, Json)>, k: Seq<char>) -> int
    decreases m.len(),
{
    if m.len() == 0 {
        0
    } else if m[0].0 == k {
        0
    } else {
        1 + first_key(m.drop_first(), k)
    }
}

/// What setting the application identifier of `platform` to `app_id` in `doc`
/// gives: an error where `doc`, or the platform's entry in it, is not an
/// object; else `doc` with that entry's `appId` member set (the entry is
/// created, empty, where absent) and every other member kept.
pub open spec fn sets_app_id(
    doc: Json,
    platform: Seq<char>,
    app_id: Seq<char>,
    r: Result<Json, ConfigError>,
) -> bool {
    match object_members(doc) {
        None => r == Err::<Json, ConfigError>(ConfigError::InvalidConfig),
        Some(m) => {
            let i = first_key(m, platform);
            if i < m.len() && object_members(m[i].1) is None {
                r == Err::<Json, ConfigError>(ConfigError::InvalidConfig)
            } else {
                let inner = if i < m.len() { object_members(m[i].1)->0 } else { Seq::empty() };
                let ii = first_key(inner, APP_ID_KEY@);
                &&& r is Ok
                &&& object_members(r->Ok_0) is Some
                &&& put_at(m, object_members(r->Ok_0)->0, platform, i)
                &&& object_members(object_members(r->Ok_0)->0[i].1) is Some
                &&& put_at(inner, object_members(object_members(r->Ok_0)->0[i].1)->0, APP_ID_KEY@, ii)
                &&& is_str(object_members(object_members(r->Ok_0)->0[i].1)->0[ii].1, app_id)
            }
        },
    }
}

/// The members of the entry of `platform` in `doc`, where both are objects
/// and the entry is there.
pub open spec fn platform_entry(doc: Json, platform: Seq<char>) -> Option<Seq<(Seq<char>, Json)>> {
    match object_members(doc) {
        None => None,
        Some(m) => {
            let i = first_key(m, platform);
            if i < m.len() {
                object_members(m[i].1)
            } else {
                None
            }
        },
    }
}

/// The application identifier recorded for `platform` in `doc`.
pub open spec fn app_id_of(doc: Json, platform: Seq<char>) -> Option<Seq<char>> {
    match platform_entry(doc, platform) {
        None => None,
        Some(inner) => {
            let ii = first_key(inner, APP_ID_KEY@);
            if ii < inner.len() {
                match inner[ii].1 {
                    Json::Str(s) => Some(s@),
                    _ => None,
                }
            } else {
                None
            }
        },
    }
}

proof fn lemma_first_key(m: Seq<(Seq<char>, Json)>, k: Seq<char>)
    ensures
        is_first_key(m, k, first_key(m, k)),
        forall|i: int| #[trigger] is_first_key(m, k, i) ==> i == first_key(m, k),
    decreases m.len(),
{
    if m.len() > 0 && m[0].0 != k {
        let t = m.drop_first();
        lemma_first_key(t, k);
        assert forall|j: int| 0 <= j < first_key(m, k) implies (#[trigger] m[j]).0 != k by {
            if j > 0 {
                assert(m[j] == t[j - 1]);
            }
        }
        assert forall|i: int| #[trigger] is_first_key(m, k, i) implies i == first_key(m, k) by {
            assert(i > 0);
            assert forall|j: int| 0 <= j < i - 1 implies (#[trigger] t[j]).0 != k by {
                assert(t[j] == m[j + 1]);
            }
            assert(is_first_key(t, k, i - 1));
        }
    } else if m.len() > 0 {
        assert forall|i: int| #[trigger] is_first_key(m, k, i) implies i == first_key(m, k) by {
            if i > 0 {
                assert(m[0].0 != k);
            }
        }
    }
}

proof fn lemma_put_at_same(
    before: Seq<(Seq<char>, Json)>,
    after: Seq<(Seq<char>, Json)>,
    k: Seq<char>,
    i: int,
)
    requires
        put_at(before, after, k, i),
        is_first_key(before, k, i),
    ensures
        first_key(after, k) == i,
{
    assert forall|j: int| 0 <= j < i implies (#[trigger] after[j]).0 != k by {
        assert(after[j] == before[j]);
    }
    assert(is_first_key(after, k, i));
    lemma_first_key(after, k);
}

proof fn lemma_put_at_other(
    before: Seq<(Seq<char>, Json)>,
    after: Seq<(Seq<char>, Json)>,
    k: Seq<char>,
    i: int,
    q: Seq<char>,
)
    requires
        put_at(before, after, k, i),
        is_first_key(before, k, i),
        q != k,
    ensures
        first_key(after, q) == (if first_key(before, q) < before.len() {
            first_key(before, q)
        } else {
            after.len() as int
        }),
        first_key(before, q) < before.len() ==> after[first_key(before, q)] == before[first_key(
            before,
            q,
        )],
{
    lemma_first_key(before, q);
    let j = first_key(before, q);
    if j < before.len() {
        assert(j != i);
        assert forall|l: int| 0 <= l < j implies (#[trigger] after[l]).0 != q by {
            if l != i {
                assert(after[l] == before[l]);
            }
        }
        assert(after[j] == before[j]);
        assert(is_first_key(after, q, j));
    } else {
        assert forall|l: int| 0 <= l < after.len() implies (#[trigger] after[l]).0 != q by {
            if l != i {
                assert(after[l] == before[l]);
            }
        }
        assert(is_first_key(after, q, after.len() as int));
    }
    lemma_first_key(after, q);
}

/// After the identifier of a platform is set, it is the identifier recorded
/// for that platform.
pub proof fn lemma_set_then_lookup(doc: Json, platform: Seq<char>, app_id: Seq<char>, out: Json)
    requires
        sets_app_id(doc, platform, app_id, Ok(out)),
    ensures
        app_id_of(out, platform) == Some(app_id),
        platform_entry(out, platform) is Some,
        first_key(object_members(out)->0, platform) == first_key(object_members(doc)->0, platform),
{
    let m = object_members(doc)->0;
    let i = first_key(m, platform);
    lemma_first_key(m, platform);
    let m1 = object_members(out)->0;
    lemma_put_at_same(m, m1, platform, i);
    let inner = if i < m.len() { object_members(m[i].1)->0 } else { Seq::empty() };
    let ii = first_key(inner, APP_ID_KEY@);
    lemma_first_key(inner, APP_ID_KEY@);
    assert(!(i < m.len() && object_members(m[i].1) is None));
    assert(object_members(m1[i].1) is Some);
    let out_inner = object_members(m1[i].1)->0;
    assert(put_at(inner, out_inner, APP_ID_KEY@, ii) && is_str(out_inner[ii].1, app_id));
    lemma_put_at_same(inner, out_inner, APP_ID_KEY@, ii);
    assert(platform_entry(out, platform) == Some(out_inner));
}

/// Setting the identifier of one platform twice keeps only the latest: the
/// second call succeeds, records the latest identifier, and adds neither a
/// platform entry nor a member to the entry.
pub proof fn lemma_set_twice_keeps_latest(
    doc: Json,
    platform: Seq<char>,
    first: Seq<char>,
    second: Seq<char>,
    mid: Json,
    r: Result<Json, ConfigError>,
)
    requires
        sets_app_id(doc, platform, first, Ok(mid)),
        sets_app_id(mid, platform, second, r),
    ensures
        r is Ok,
        app_id_of(r->Ok_0, platform) == Some(second),
        object_members(r->Ok_0)->0.len() == object_members(mid)->0.len(),
        platform_entry(r->Ok_0, platform)->0.len() == platform_entry(mid, platform)->0.len(),
{
    lemma_set_then_lookup(doc, platform, first, mid);
    let m1 = object_members(mid)->0;
    let i = first_key(m1, platform);
    lemma_first_key(m1, platform);
    assert(is_first_key(m1, platform, i));
    let inner = object_members(m1[i].1)->0;
    let ii = first_key(inner, APP_ID_KEY@);
    lemma_first_key(inner, APP_ID_KEY@);
    assert(is_first_key(inner, APP_ID_KEY@, ii));
    assert(!(i < m1.len() && object_members(m1[i].1) is None));
    let out = r->Ok_0;
    lemma_set_then_lookup(mid, platform, second, out);
    let m2 = object_members(out)->0;
    let out_inner = object_members(m2[i].1)->0;
    assert(put_at(inner, out_inner, APP_ID_KEY@, ii));
}

/// Setting the identifiers of two different platforms one after the other
/// keeps both: each is recorded for its own platform.
pub proof fn lemma_set_two_platforms(
    doc: Json,
    p: Seq<char>,
    a: Seq<char>,
    q: Seq<char>,
    b: Seq<char>,
    mid: Json,
    out: Json,
)
    requires
        p != q,
        sets_app_id(doc, p, a, Ok(mid)),
        sets_app_id(mid, q, b, Ok(out)),
    ensures
        app_id_of(out, p) == Some(a),
        app_id_of(out, q) == Some(b),
{
    lemma_set_then_lookup(doc, p, a, mid);
    lemma_set_then_lookup(mid, q, b, out);
    let m1 = object_members(mid)->0;
    let m2 = object_members(out)->0;
    let j = first_key(m1, q);
    lemma_first_key(m1, q);
    assert(is_first_key(m1, q, j));
    lemma_put_at_other(m1, m2, q, j, p);
}

fn find_member(m: &Vec<(String, Json)>, key: &String) -> (i: usize)
    ensures
        is_first_key(members(m@), key@, i as int),
{
    let mut i: usize = 0;
    while i < m.len()
        invariant
            0 <= i <= m@.len(),
            forall|j: int| 0 <= j < i ==> (#[trigger] members(m@)[j]).0 != key@,
        decreases m@.len() - i,
    {
        if m[i].0 == *key {
            return i;
        }
        i += 1;
    }
    i
}

/// Sets member `key` of `m` to `value`: replaces the first member so keyed,
/// or appends one.
fn put_member(m: Vec<(String, Json)>, key: String, value: Json) -> (out: Vec<(String, Json)>)
    ensures
        put_at(members(m@), members(out@), key@, first_key(members(m@), key@)),
        members(out@)[first_key(members(m@), key@)].1 == value,
{
    let mut out = m;
    let i = find_member(&out, &key);
    let ghost k = key@;
    if i < out.len() {
        out.remove(i);
        out.insert(i, (key, value));
    } else {
        out.push((key, value));
    }
    proof {
        lemma_first_key(members(m@), k);
    }
    out
}

/// Sets the application identifier of `platform` to `app_id` in `doc`.
pub fn set_platform_app_id(doc: Json, platform: &str, app_id: &str) -> (r: Result<Json, ConfigError>)
    ensures
        sets_app_id(doc, platform@, app_id@, r),
{
    match doc {
        Json::Object(entries) => {
            let ghost m = members(entries@);
            let key = String::from_str(platform);
            let i = find_member(&entries, &key);
            proof {
                lemma_first_key(m, platform@);
            }
            let ghost orig = entries@;
            let mut entries = entries;
            let found = i < entries.len();
            let inner: Vec<(String, Json)> = if found {
                let (_, old_entry) = entries.remove(i);
                assert(old_entry == orig[i as int].1);
                assert(m[i as int].1 == old_entry);
                match old_entry {
                    Json::Object(inner) => inner,
                    _ => {
                        assert(object_members(m[i as int].1) is None);
                        return Err(ConfigError::InvalidConfig);
                    },
                }
            } else {
                Vec::new()
            };
            let ghost inner_m = members(inner@);
            assert(found ==> inner_m == object_members(m[i as int].1)->0);
            assert(!found ==> inner_m =~= Seq::<(Seq<char>, Json)>::empty());
            let new_inner = put_member(
                inner,
                String::from_str(APP_ID_KEY),
                Json::Str(String::from_str(app_id)),
            );
            let ghost entry = (key@, Json::Object(new_inner));
            if found {
                entries.insert(i, (key, Json::Object(new_inner)));
                assert(members(entries@) =~= m.update(i as int, entry));
            } else {
                entries.push((key, Json::Object(new_inner)));
                assert(members(entries@) =~= m.push(entry));
            }
            let res = Json::Object(entries);
            assert(object_members(res)->0[i as int] == entry);
            Ok(res)
        },
        _ => Err(ConfigError::InvalidConfig),
    }
}

} // verus!
