//! Host-local identity: where it lives and how its key is shown.

use vstd::prelude::*;

use crate::text::{hex_digit, hex_text, lemma_hex_text_index, lemma_hex_text_len, push_hex_prefix};

verus! {

/// The short display fingerprint of a public key: its first six bytes as
/// twelve lowercase hex digits. It is not an address.
pub open spec fn fingerprint_text(public_key: Seq<u8>) -> Seq<char> {
    hex_text(public_key.take(6))
}

/// The short display fingerprint of a 32-byte public key.
pub fn fingerprint_of(public_key: &[u8; 32]) -> (r: String)
    ensures
        r@ == fingerprint_text(public_key@),
        r@ == hex_text(public_key@.take(6)),
        r@.len() == 12,
{
    let mut r = String::new();
    let bytes: &[u8] = public_key.as_slice();
    push_hex_prefix(&mut r, bytes, 6);
    proof {
        lemma_hex_text_len(public_key@.take(6));
        lemma_fingerprint_digits(public_key@);
    }
    r
}

/// The fingerprint is the key's first six bytes, each as its high then low
/// lowercase hex digit: twelve characters, the key's later bytes unused.
pub proof fn lemma_fingerprint_digits(public_key: Seq<u8>)
    requires
        public_key.len() >= 6,
    ensures
        fingerprint_text(public_key) == hex_text(public_key.take(6)),
        fingerprint_text(public_key).len() == 12,
        forall|i: int|
            0 <= i < 6 ==> fingerprint_text(public_key)[2 * i] == hex_digit(
                #[trigger] public_key[i] as int / 16,
            ) && fingerprint_text(public_key)[2 * i + 1] == hex_digit(public_key[i] as int % 16),
{
    let six = public_key.take(6);
    lemma_hex_text_len(six);
    assert forall|i: int| 0 <= i < 6 implies fingerprint_text(public_key)[2 * i] == hex_digit(
        #[trigger] public_key[i] as int / 16,
    ) && fingerprint_text(public_key)[2 * i + 1] == hex_digit(public_key[i] as int % 16) by {
        lemma_hex_text_index(six, i);
        assert(six[i] == public_key[i]);
    }
}

/// The environment setting that roots the platform data directory.
#[derive(Clone, Copy, PartialEq, Eq, Debug, Structural)]
pub enum DataRootSource {
    /// `LOCALAPPDATA`, under which the directory is `Strophe`.
    LocalAppData,
    /// `XDG_DATA_HOME`, under which the directory is `strophe`.
    XdgDataHome,
    /// `HOME`, under which the directory is `.local/share/strophe`.
    Home,
}

/// The directory each root holds Strophe's data in.
pub open spec fn data_subdirectory(s: DataRootSource) -> Seq<char> {
    match s {
        DataRootSource::LocalAppData => "Strophe"@,
        DataRootSource::XdgDataHome => "strophe"@,
        DataRootSource::Home => ".local/share/strophe"@,
    }
}

impl DataRootSource {
    /// The directory under this root that holds Strophe's data.
    pub fn subdirectory(self) -> (r: &'static str)
        ensures
            r@ == data_subdirectory(self),
            self == DataRootSource::LocalAppData ==> r@ == "Strophe"@,
            self == DataRootSource::XdgDataHome ==> r@ == "strophe"@,
            self == DataRootSource::Home ==> r@ == ".local/share/strophe"@,
    {
        match self {
            DataRootSource::LocalAppData => "Strophe",
            DataRootSource::XdgDataHome => "strophe",
            DataRootSource::Home => ".local/share/strophe",
        }
    }
}

/// Picks the data root from which settings are present: `LOCALAPPDATA`
/// first, then `XDG_DATA_HOME`, then `HOME`; none when all are unset.
pub fn choose_data_root(local_app_data: bool, xdg_data_home: bool, home: bool) -> (r: Option<
    DataRootSource,
>)
    ensures
        local_app_data ==> r == Some(DataRootSource::LocalAppData),
        !local_app_data && xdg_data_home ==> r == Some(DataRootSource::XdgDataHome),
        !local_app_data && !xdg_data_home && home ==> r == Some(DataRootSource::Home),
        !local_app_data && !xdg_data_home && !home ==> r == None::<DataRootSource>,
{
    if local_app_data {
        Some(DataRootSource::LocalAppData)
    } else if xdg_data_home {
        Some(DataRootSource::XdgDataHome)
    } else if home {
        Some(DataRootSource::Home)
    } else {
        None
    }
}

} // verus!
