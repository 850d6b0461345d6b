use vstd::prelude::*;

verus! {

/// Where a service method runs.
#[allow(non_camel_case_types)]
#[derive(Clone, Copy, PartialEq, Eq, Debug, Hash, Structural)]
pub enum EProtoExecutionSite {
    k_EProtoExecutionSiteUnknown,
    k_EProtoExecutionSiteSteamClient,
}

/// The wire number of each site.
pub open spec fn site_number(s: EProtoExecutionSite) -> i32 {
    match s {
        EProtoExecutionSite::k_EProtoExecutionSiteUnknown => 0,
        EProtoExecutionSite::k_EProtoExecutionSiteSteamClient => 3,
    }
}

impl EProtoExecutionSite {
    /// The wire number of the site.
    pub fn value(&self) -> (r: i32)
        ensures
            r == site_number(*self),
    {
        match self {
            EProtoExecutionSite::k_EProtoExecutionSiteUnknown => 0,
            EProtoExecutionSite::k_EProtoExecutionSiteSteamClient => 3,
        }
    }

    /// The site with this wire number.
    pub fn from_i32(value: i32) -> (r: Option<EProtoExecutionSite>)
        ensures
            match r {
                Some(s) => site_number(s) == value,
                None => value != 0 && value != 3,
            },
    {
        match value {
            0 => Some(EProtoExecutionSite::k_EProtoExecutionSiteUnknown),
            3 => Some(EProtoExecutionSite::k_EProtoExecutionSiteSteamClient),
            _ => None,
        }
    }

    /// The site with this name.
    pub fn from_str(name: &str) -> (r: Option<EProtoExecutionSite>)
        ensures
            name@ == "k_EProtoExecutionSiteUnknown"@ ==> r == Some(
                EProtoExecutionSite::k_EProtoExecutionSiteUnknown,
            ),
            name@ == "k_EProtoExecutionSiteSteamClient"@ ==> r == Some(
                EProtoExecutionSite::k_EProtoExecutionSiteSteamClient,
            ),
            name@ != "k_EProtoExecutionSiteUnknown"@ && name@
                != "k_EProtoExecutionSiteSteamClient"@ ==> r is None,
    {
        proof {
            broadcast use vstd::string::to_string_from_display_ensures_for_str;
            reveal_strlit("k_EProtoExecutionSiteUnknown");
            reveal_strlit("k_EProtoExecutionSiteSteamClient");
            assert("k_EProtoExecutionSiteUnknown"@[21] != "k_EProtoExecutionSiteSteamClient"@[21]);
        }
        let n = name.to_string();
        if n == "k_EProtoExecutionSiteUnknown".to_string() {
            Some(EProtoExecutionSite::k_EProtoExecutionSiteUnknown)
        } else if n == "k_EProtoExecutionSiteSteamClient".to_string() {
            Some(EProtoExecutionSite::k_EProtoExecutionSiteSteamClient)
        } else {
            None
        }
    }
}

impl Default for EProtoExecutionSite {
    fn default() -> (r: Self)
        ensures
            r == EProtoExecutionSite::k_EProtoExecutionSiteUnknown,
    {
        EProtoExecutionSite::k_EProtoExecutionSiteUnknown
    }
}

} // verus!
