//! The identity of a setting.

use vstd::prelude::*;

verus! {

/// The mathematical identity of a setting: its namespace and its key.
pub type SettingId = (Seq<char>, Seq<char>);

/// The namespace and key of a setting.
#[derive(Debug, PartialEq, Eq, Hash)]
pub struct SettingKey {
    pub namespace: String,
    pub key: String,
}

impl View for SettingKey {
    type V = SettingId;

    open spec fn view(&self) -> SettingId {
        (self.namespace@, self.key@)
    }
}

impl SettingKey {
    /// A key made of copies of the two texts.
    pub fn new(namespace: &str, key: &str) -> (made: Self)
        ensures
            made@ == (namespace@, key@),
    {
        SettingKey { namespace: namespace.to_owned(), key: key.to_owned() }
    }

    /// Whether this key names the setting `key` of `namespace`.
    pub fn names(&self, namespace: &str, key: &str) -> (same: bool)
        ensures
            same == (self@ == (namespace@, key@)),
    {
        crate::text::str_eq(self.namespace.as_str(), namespace) && crate::text::str_eq(
            self.key.as_str(),
            key,
        )
    }
}

impl Clone for SettingKey {
    fn clone(&self) -> (copy: Self)
        ensures
            copy@ == self@,
    {
        SettingKey { namespace: self.namespace.clone(), key: self.key.clone() }
    }
}

} // verus!
