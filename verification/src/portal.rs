//! The settings portal: what a caller of the settings interface is answered.

use vstd::prelude::*;
use crate::key::SettingId;
use crate::schema::seeded_table;
use crate::snapshot::{grouped, SettingsSnapshot};
use crate::store::{lookup, SettingsStore};
use crate::value::{SettingValue, ValueView};

verus! {

/// A fault that the portal reports to its caller.
#[derive(Debug)]
pub enum PortalError {
    /// The request failed; the text says why.
    Failed(String),
}

/// The settings portal. It answers reads from the store that it holds.
pub struct SettingsPortal {
    store: SettingsStore,
}

impl View for SettingsPortal {
    type V = Map<SettingId, ValueView>;

    closed spec fn view(&self) -> Map<SettingId, ValueView> {
        self.store@
    }
}

impl SettingsPortal {
    /// The store that the portal holds.
    pub closed spec fn held(&self) -> SettingsStore {
        self.store
    }

    /// The portal is well formed when its store is.
    pub open spec fn wf(&self) -> bool {
        self.held().wf()
    }

    /// The table of the portal is the table of its store.
    pub proof fn lemma_view(&self)
        ensures
            self@ == self.held()@,
    {
    }

    /// A portal over a newly created store.
    pub fn new() -> (portal: Self)
        ensures
            portal.wf(),
            portal@ == seeded_table(),
    {
        SettingsPortal { store: SettingsStore::new() }
    }

    /// A portal over `store`.
    pub fn with_store(store: SettingsStore) -> (portal: Self)
        ensures
            portal.held() == store,
            portal@ == store@,
    {
        SettingsPortal { store }
    }

    /// The store that the portal holds.
    pub fn store(&self) -> (store: &SettingsStore)
        ensures
            *store == self.held(),
            store@ == self@,
    {
        &self.store
    }

    /// The store that the portal holds, for writing.
    pub fn store_mut(&mut self) -> (store: &mut SettingsStore)
        ensures
            *store == old(self).held(),
            final(self).held() == *final(store),
    {
        &mut self.store
    }

    /// The value of the setting `key` of `namespace`. A setting that the
    /// table does not hold is reported as a failure with the text
    /// "Setting not found".
    pub fn read(&self, namespace: &str, key: &str) -> (answer: Result<SettingValue, PortalError>)
        requires
            self.wf(),
        ensures
            match answer {
                Ok(value) => lookup(self@, namespace@, key@) == Some(value@),
                Err(PortalError::Failed(text)) => {
                    &&& lookup(self@, namespace@, key@) is None
                    &&& text@ == "Setting not found"@
                },
            },
    {
        match self.store.read(namespace, key) {
            Some(value) => Ok(value),
            None => Err(PortalError::Failed("Setting not found".to_owned())),
        }
    }

    /// The settings of the namespaces in `namespaces`, or all settings if the
    /// list is empty, grouped by namespace.
    pub fn read_all(&self, namespaces: Vec<String>) -> (snapshot: SettingsSnapshot)
        requires
            self.wf(),
        ensures
            snapshot.wf(),
            snapshot@ == grouped(self@, namespaces.deep_view()),
    {
        self.store.read_all(namespaces)
    }
}

impl Default for SettingsPortal {
    /// The same portal as [`SettingsPortal::new`] gives.
    fn default() -> (portal: Self)
        ensures
            portal.wf(),
            portal@ == seeded_table(),
    {
        SettingsPortal::new()
    }
}

} // verus!
