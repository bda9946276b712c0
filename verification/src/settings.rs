use vstd::prelude::*;

use crate::text::{copy_str, str_eq};

verus! {

/// The launcher's user settings.
#[derive(Debug, Clone)]
pub struct Settings {
    /// Microsoft Entra Application (client) ID for an app named "Cubic".
    /// This is what Microsoft shows on the sign-in consent screen.
    pub microsoft_client_id: String,
    pub selected_instance_id: Option<String>,
    /// Max heap in MiB passed as -Xmx.
    pub memory_mib: u32,
    pub java_path_override: Option<String>,
    /// UI theme id: grass | deepslate | nether | copper | pale
    pub theme: String,
}

impl Default for Settings {
    fn default() -> (s: Settings)
        ensures
            s.microsoft_client_id@.len() == 0,
            s.selected_instance_id is None,
            s.memory_mib == 2048,
            s.java_path_override is None,
            s.theme@ == "grass"@,
    {
        Settings {
            microsoft_client_id: String::new(),
            selected_instance_id: None,
            memory_mib: 2048,
            java_path_override: None,
            theme: copy_str("grass"),
        }
    }
}

impl Settings {
    /// Marks the instance `id` as the selected one.
    pub fn select_instance(&mut self, id: &str)
        ensures
            final(self).selected_instance_id matches Some(s) && s@ == id@,
            final(self).microsoft_client_id == old(self).microsoft_client_id,
            final(self).memory_mib == old(self).memory_mib,
            final(self).java_path_override == old(self).java_path_override,
            final(self).theme == old(self).theme,
    {
        self.selected_instance_id = Some(copy_str(id));
    }

    /// Drops the selection if it names the instance `id`; says whether it did.
    pub fn forget_instance(&mut self, id: &str) -> (changed: bool)
        ensures
            changed == (old(self).selected_instance_id matches Some(s) && s@ == id@),
            changed ==> final(self).selected_instance_id is None,
            !changed ==> final(self).selected_instance_id == old(self).selected_instance_id,
            !(final(self).selected_instance_id matches Some(s) && s@ == id@),
            final(self).microsoft_client_id == old(self).microsoft_client_id,
            final(self).memory_mib == old(self).memory_mib,
            final(self).java_path_override == old(self).java_path_override,
            final(self).theme == old(self).theme,
    {
        let matches = match &self.selected_instance_id {
            Some(s) => str_eq(s.as_str(), id),
            None => false,
        };
        if matches {
            self.selected_instance_id = None;
        }
        matches
    }
}

} // verus!
