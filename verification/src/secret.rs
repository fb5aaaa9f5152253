//! Values that must not show up in logs: secret strings and maps whose
//! sensitive entries are masked when they are formatted for debugging.
use vstd::prelude::*;
use crate::strmap::StrMap;
use crate::text::{chars_of, ends_with, has_suffix, str_eq};

verus! {

/// A string whose debug rendering hides its content.
#[derive(Eq, Hash)]
pub struct SecretString(String);

impl Default for SecretString {
    /// The empty secret.
    fn default() -> (r: Self)
        ensures
            r@ == Seq::<char>::empty(),
    {
        SecretString(String::new())
    }
}

impl PartialEq for SecretString {
    /// Two secrets are equal when their texts are.
    fn eq(&self, other: &Self) -> (r: bool) {
        self.0 == other.0
    }
}

impl vstd::std_specs::cmp::PartialEqSpecImpl for SecretString {
    open spec fn obeys_eq_spec() -> bool {
        true
    }

    open spec fn eq_spec(&self, other: &Self) -> bool {
        self@ == other@
    }
}

impl SecretString {
    /// The characters of the secret.
    pub closed spec fn view(&self) -> Seq<char> {
        self.0@
    }

    /// Wraps `s`.
    pub fn new(s: String) -> (r: Self)
        ensures
            r@ == s@,
    {
        SecretString(s)
    }

    /// The secret itself.
    pub fn as_str(&self) -> (r: &str)
        ensures
            r@ == self@,
    {
        self.0.as_str()
    }

    /// How the secret shows in debug output: a quoted placeholder, never its content.
    pub fn debug_string(&self) -> (r: String)
        ensures
            r@ == "\"<REDACTED>\""@,
    {
        String::from_str("\"<REDACTED>\"")
    }

    /// How the secret shows when displayed: its content.
    pub fn display_string(&self) -> (r: String)
        ensures
            r@ == self@,
    {
        self.0.clone()
    }
}

impl From<String> for SecretString {
    /// Wraps `s`.
    fn from(s: String) -> (r: Self) {
        SecretString(s)
    }
}

impl vstd::std_specs::convert::FromSpecImpl<String> for SecretString {
    open spec fn obeys_from_spec() -> bool {
        true
    }

    closed spec fn from_spec(s: String) -> Self {
        SecretString(s)
    }
}

/// A secret made from a string holds that string.
pub proof fn lemma_secret_from_string(s: String)
    ensures
        <SecretString as vstd::std_specs::convert::FromSpec<String>>::from_spec(s)@ == s@,
{
}

impl<'a> From<&'a str> for SecretString {
    /// Wraps a copy of `s`.
    fn from(s: &'a str) -> (r: Self)
        ensures
            r@ == s@,
    {
        SecretString(String::from_str(s))
    }
}

impl<'a> vstd::std_specs::convert::FromSpecImpl<&'a str> for SecretString {
    /// Two calls on one text give secrets equal in text, not one value, so the
    /// conversion is specified by the `ensures` of `from` alone.
    open spec fn obeys_from_spec() -> bool {
        false
    }

    closed spec fn from_spec(s: &'a str) -> Self {
        vstd::pervasive::arbitrary()
    }
}

impl std::ops::Deref for SecretString {
    type Target = String;

    /// The secret itself.
    fn deref(&self) -> (r: &String)
        ensures
            r@ == self@,
    {
        &self.0
    }
}

impl Clone for SecretString {
    fn clone(&self) -> (r: Self)
        ensures
            r == *self,
    {
        SecretString(self.0.clone())
    }
}

/// The lower-case form of a string, as std's `str::to_lowercase` computes it.
pub uninterp spec fn lowercase(s: Seq<char>) -> Seq<char>;

/// std's `str::to_lowercase`: the Unicode lower-case mapping of every character.
/// What it maps each character to is not stated here; the result is named by `lowercase`.
#[verifier::external_body]
pub(crate) fn to_lowercase(s: &str) -> (r: String)
    ensures
        r@ == lowercase(s@),
{
    s.to_lowercase()
}

/// Whether a key, already in lower case, names something sensitive: one of a
/// list of credential names, or a name that ends in a credential suffix.
pub open spec fn sensitive_lowered(k: Seq<char>) -> bool {
    ||| k == "key"@
    ||| k == "token"@
    ||| k == "secret"@
    ||| k == "password"@
    ||| k == "auth"@
    ||| k == "authorization"@
    ||| k == "cookie"@
    ||| k == "set-cookie"@
    ||| k == "signature"@
    ||| k == "credential"@
    ||| k == "passphrase"@
    ||| k == "pwd"@
    ||| k == "sessionid"@
    ||| k == "sid"@
    ||| ends_with(k, "_key"@)
    ||| ends_with(k, "-key"@)
    ||| ends_with(k, "apikey"@)
    ||| ends_with(k, "_token"@)
    ||| ends_with(k, "-token"@)
    ||| ends_with(k, "_secret"@)
    ||| ends_with(k, "-secret"@)
    ||| ends_with(k, "_password"@)
    ||| ends_with(k, "-password"@)
    ||| ends_with(k, "_auth"@)
    ||| ends_with(k, "-auth"@)
}

/// Whether a key name suggests that its value is a credential.
pub open spec fn sensitive_key(k: Seq<char>) -> bool {
    sensitive_lowered(lowercase(k))
}

fn ends_with_str(k: &Vec<char>, p: &str) -> (b: bool)
    ensures
        b == ends_with(k@, p@),
{
    let pv = chars_of(p);
    has_suffix(k, &pv)
}

/// Whether `k`, already in lower case, names something sensitive.
pub fn is_sensitive_lowered(k: &str) -> (b: bool)
    ensures
        b == sensitive_lowered(k@),
{
    if str_eq(k, "key") || str_eq(k, "token") || str_eq(k, "secret") || str_eq(k, "password")
        || str_eq(k, "auth") || str_eq(k, "authorization") || str_eq(k, "cookie") || str_eq(
        k,
        "set-cookie",
    ) || str_eq(k, "signature") || str_eq(k, "credential") || str_eq(k, "passphrase")
        || str_eq(k, "pwd") || str_eq(k, "sessionid") || str_eq(k, "sid") {
        return true;
    }
    let kv = chars_of(k);
    ends_with_str(&kv, "_key") || ends_with_str(&kv, "-key") || ends_with_str(&kv, "apikey")
        || ends_with_str(&kv, "_token") || ends_with_str(&kv, "-token") || ends_with_str(
        &kv,
        "_secret",
    ) || ends_with_str(&kv, "-secret") || ends_with_str(&kv, "_password") || ends_with_str(
        &kv,
        "-password",
    ) || ends_with_str(&kv, "_auth") || ends_with_str(&kv, "-auth")
}

/// Checks if a key name suggests it contains sensitive information (e.g. credentials):
/// its lower-case form is a credential name or ends in a credential suffix.
pub fn is_sensitive_key(key: &str) -> (b: bool)
    ensures
        b == sensitive_key(key@),
{
    let lower = to_lowercase(key);
    is_sensitive_lowered(lower.as_str())
}

/// How std's `Debug` renders a string slice: quoted, with escapes.
pub uninterp spec fn debug_quoted(s: Seq<char>) -> Seq<char>;

/// std's `Debug` formatting of a `str`. What the escapes are is not stated here;
/// the result is named by `debug_quoted`.
#[verifier::external_body]
fn str_debug(s: &str) -> (r: String)
    ensures
        r@ == debug_quoted(s@),
{
    format!("{:?}", s)
}

/// A map keyed by strings whose debug rendering masks the values of sensitive keys.
#[derive(Clone)]
pub struct ExtraMaskedMap<V>(StrMap<V>);

/// One entry of a masked map as debug output shows it.
pub open spec fn masked_entry(k: Seq<char>, v: Seq<char>) -> Seq<char> {
    debug_quoted(k) + ": "@ + if sensitive_key(k) {
        debug_quoted("<REDACTED>"@)
    } else {
        debug_quoted(v)
    }
}

/// The entries `0..n` of a masked map, joined by ", ".
pub open spec fn masked_entries(ks: Seq<Seq<char>>, vs: Seq<Seq<char>>, n: nat) -> Seq<char>
    decreases n,
{
    if n == 0 {
        Seq::empty()
    } else if n == 1 {
        masked_entry(ks[0], vs[0])
    } else {
        masked_entries(ks, vs, (n - 1) as nat) + ", "@ + masked_entry(
            ks[n - 1],
            vs[n - 1],
        )
    }
}

/// The debug rendering of a masked map tells nothing of the values of
/// sensitive keys: two maps with the same keys, and the same values under every
/// key that is not sensitive, render alike.
pub proof fn law_masked_rendering_hides_secrets(
    ks: Seq<Seq<char>>,
    vs1: Seq<Seq<char>>,
    vs2: Seq<Seq<char>>,
    n: nat,
)
    requires
        n <= ks.len(),
        n <= vs1.len(),
        n <= vs2.len(),
        forall|i: int| 0 <= i < n && !sensitive_key(ks[i]) ==> vs1[i] == vs2[i],
    ensures
        masked_entries(ks, vs1, n) == masked_entries(ks, vs2, n),
    decreases n,
{
    if n > 1 {
        law_masked_rendering_hides_secrets(ks, vs1, vs2, (n - 1) as nat);
    }
    if n > 0 {
        if !sensitive_key(ks[n - 1]) {
            assert(vs1[n - 1] == vs2[n - 1]);
        }
        if !sensitive_key(ks[0]) {
            assert(vs1[0] == vs2[0]);
        }
    }
}

impl<V> ExtraMaskedMap<V> {
    /// The map of entries.
    pub closed spec fn view(&self) -> Map<Seq<char>, V> {
        self.0@
    }

    /// The keys in entry order.
    pub closed spec fn key_seq(&self) -> Seq<Seq<char>> {
        self.0.key_seq()
    }

    /// The values in entry order.
    pub closed spec fn val_seq(&self) -> Seq<V> {
        self.0.val_seq()
    }

    /// The map holds a key exactly when the key list does, and its value there
    /// is the value at a position of the key in the list.
    pub proof fn lemma_view_from_entries(self)
        ensures
            forall|k: Seq<char>| #[trigger] self@.contains_key(k) <==> self.key_seq().contains(k),
            forall|k: Seq<char>| #[trigger] self.key_seq().contains(k) ==> {
                let i = self.key_seq().index_of(k);
                &&& 0 <= i < self.key_seq().len()
                &&& self.key_seq()[i] == k
                &&& self@[k] == self.val_seq()[i]
            },
    {
    }

    /// An empty map.
    pub fn new() -> (m: Self)
        ensures
            m@ == Map::<Seq<char>, V>::empty(),
            m.key_seq().len() == 0,
    {
        ExtraMaskedMap(StrMap::new())
    }

    /// Wraps a map.
    pub fn from_map(m: StrMap<V>) -> (r: Self)
        ensures
            r@ == m@,
            r.key_seq() == m.key_seq(),
            r.val_seq() == m.val_seq(),
    {
        ExtraMaskedMap(m)
    }

    /// The number of entries.
    pub fn len(&self) -> (n: usize)
        ensures
            n == self.key_seq().len(),
            n == self.val_seq().len(),
    {
        self.0.len()
    }

    /// Whether there are no entries.
    pub fn is_empty(&self) -> (b: bool)
        ensures
            b == (self.key_seq().len() == 0),
    {
        self.0.len() == 0
    }

    /// Stores `v` under `k`, giving back the value that was there.
    pub fn insert(&mut self, k: String, v: V) -> (old_v: Option<V>)
        ensures
            final(self)@ == old(self)@.insert(k@, v),
            old(self)@.contains_key(k@) ==> old_v == Some(old(self)@[k@]),
            !old(self)@.contains_key(k@) ==> old_v is None,
    {
        self.0.insert(k, v)
    }

    /// The value stored under `k`, if any.
    pub fn get(&self, k: &str) -> (r: Option<&V>)
        ensures
            match r {
                Some(v) => self@.contains_key(k@) && *v == self@[k@],
                None => !self@.contains_key(k@),
            },
    {
        self.0.get(k)
    }

    /// Whether `k` is a key.
    pub fn contains_key(&self, k: &str) -> (b: bool)
        ensures
            b == self@.contains_key(k@),
    {
        self.0.contains_key(k)
    }

    /// The key of the entry at position `i`.
    pub fn key_at(&self, i: usize) -> (k: &String)
        requires
            i < self.key_seq().len(),
        ensures
            k@ == self.key_seq()[i as int],
    {
        self.0.key_at(i)
    }

    /// The value of the entry at position `i`.
    pub fn value_at(&self, i: usize) -> (v: &V)
        requires
            i < self.key_seq().len(),
        ensures
            *v == self.val_seq()[i as int],
    {
        self.0.value_at(i)
    }
}

impl ExtraMaskedMap<String> {
    /// The debug rendering of the map: `{` entries `}`, each `"key": "value"`,
    /// with the value of every sensitive key shown as `"<REDACTED>"`.
    pub fn debug_string(&self) -> (r: String)
        ensures
            r@ == "{"@ + masked_entries(
                self.key_seq(),
                self.val_seq().map_values(|v: String| v@),
                self.key_seq().len(),
            ) + "}"@,
    {
        let ghost vs = self.val_seq().map_values(|v: String| v@);
        let n = self.len();
        let mut body = String::new();
        let mut i: usize = 0;
        while i < n
            invariant
                i <= n == self.key_seq().len() == self.val_seq().len(),
                vs == self.val_seq().map_values(|v: String| v@),
                body@ == masked_entries(self.key_seq(), vs, i as nat),
            decreases n - i,
        {
            let k = self.key_at(i);
            let v = self.value_at(i);
            if i > 0 {
                body.append(", ");
            }
            let kq = str_debug(k.as_str());
            body.append(kq.as_str());
            body.append(": ");
            if is_sensitive_key(k.as_str()) {
                let red = str_debug("<REDACTED>");
                body.append(red.as_str());
            } else {
                let vq = str_debug(v.as_str());
                body.append(vq.as_str());
            }
            proof {
                assert(vs[i as int] == v@);
            }
            i += 1;
        }
        let mut r = String::from_str("{");
        r.append(body.as_str());
        r.append("}");
        r
    }
}

} // verus!
