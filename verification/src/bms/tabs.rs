//! Dashboard tabs: validation of a tab identifier and the storage key of a
//! (user, tab) layout.
use vstd::prelude::*;
use crate::text::str_eq;
use vstd::string::StringSliceAdditionalSpecFns;
use vstd::utf8::encode_utf8;

verus! {

/// Tab used when the client names none, and user id while there is no user
/// authentication.
pub const DEFAULT_TAB: &'static str = "default";

/// Byte allowed in a tab identifier: `[a-z0-9_-]`.
pub open spec fn tab_byte(b: u8) -> bool {
    (97 <= b && b <= 122) || (48 <= b && b <= 57) || b == 95 || b == 45
}

/// Why a tab identifier is refused, if it is: length 1..=32 bytes, then
/// only `[a-z0-9_-]`.
pub open spec fn tab_error(tab: Seq<char>) -> Option<Seq<char>> {
    let bytes = encode_utf8(tab);
    if tab.len() == 0 || bytes.len() > 32 {
        Some("tab length 1..=32"@)
    } else if !(forall|i: int| 0 <= i < bytes.len() ==> tab_byte(#[trigger] bytes[i])) {
        Some("tab must match [a-z0-9_-]+"@)
    } else {
        None
    }
}

/// Accepts a tab identifier of 1..=32 bytes from `[a-z0-9_-]` (refusing
/// anything that could be abused in the layout store).
pub fn validate_tab(tab: &str) -> (r: Result<&str, &'static str>)
    ensures
        r matches Ok(t) ==> tab_error(tab@) is None && t@ == tab@,
        r matches Err(e) ==> tab_error(tab@) == Some(e@),
{
    if tab.is_empty() || tab.len() > 32 {
        return Err("tab length 1..=32");
    }
    let bytes = tab.as_bytes();
    let n = bytes.len();
    let mut i: usize = 0;
    while i < n
        invariant
            n == bytes@.len(),
            bytes@ == tab.spec_bytes(),
            tab@.len() > 0,
            n <= 32,
            i <= n,
            forall|j: int| 0 <= j < i ==> tab_byte(#[trigger] bytes@[j]),
        decreases n - i,
    {
        let b = bytes[i];
        if !((97 <= b && b <= 122) || (48 <= b && b <= 57) || b == 95 || b == 45) {
            assert(!tab_byte(bytes@[i as int]));
            return Err("tab must match [a-z0-9_-]+");
        }
        i += 1;
    }
    Ok(tab)
}

/// Storage key of a tab: `default:<tab>`, except the default tab, stored
/// under `default` alone (layouts saved before tabs existed).
pub open spec fn storage_key_of(tab: Seq<char>) -> Seq<char> {
    if tab == "default"@ {
        "default"@
    } else {
        "default:"@ + tab
    }
}

pub fn storage_key(tab: &str) -> (r: String)
    ensures
        r@ == storage_key_of(tab@),
{
    if str_eq(tab, DEFAULT_TAB) {
        String::from_str("default")
    } else {
        let mut s = String::from_str("default:");
        s.append(tab);
        s
    }
}

/// `?tab=` query parameter.
#[derive(Debug, Clone, Default)]
pub struct TabQuery {
    pub tab: Option<String>,
}

impl TabQuery {
    /// Storage key of the requested tab (the default tab when none is given),
    /// or why the tab is refused.
    pub fn resolve(&self) -> (r: Result<String, &'static str>)
        ensures
            match self.tab {
                Some(t) => match r {
                    Ok(k) => tab_error(t@) is None && k@ == storage_key_of(t@),
                    Err(e) => tab_error(t@) == Some(e@),
                },
                None => r matches Ok(k) && k@ == "default"@,
            },
    {
        match &self.tab {
            Some(t) => match validate_tab(t.as_str()) {
                Ok(v) => Ok(storage_key(v)),
                Err(e) => Err(e),
            },
            None => {
                // the default tab is always valid
                let k = storage_key(DEFAULT_TAB);
                proof {
                    reveal_strlit("default");
                }
                Ok(k)
            },
        }
    }
}

/// Two distinct tabs never share a storage key.
pub proof fn lemma_storage_keys_distinct(a: Seq<char>, b: Seq<char>)
    requires
        a != b,
    ensures
        storage_key_of(a) != storage_key_of(b),
{
    reveal_strlit("default");
    reveal_strlit("default:");
    let p = "default:"@;
    if a != "default"@ && b != "default"@ {
        if storage_key_of(a) == storage_key_of(b) {
            assert((p + a).skip(p.len() as int) =~= a);
            assert((p + b).skip(p.len() as int) =~= b);
        }
    } else if a == "default"@ {
        assert(storage_key_of(b).len() > 7 || storage_key_of(b).len() < 7 || storage_key_of(b) != "default"@) by {
            assert((p + b).len() == 8 + b.len());
        }
    } else {
        assert((p + a).len() == 8 + a.len());
    }
}

} // verus!
