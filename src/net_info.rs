//! Device-side socket kinds and reply words.
use vstd::prelude::*;
use vstd::string::*;
use crate::text::{lowercase, text_eq, to_lower};

verus! {

/// The kinds of device-side socket that a raw connection can dial.
#[derive(Debug, Clone, Copy, PartialEq, Eq, Structural)]
pub enum NetworkType {
    Tcp,
    Unix,
    Dev,
    Local,
    LocalReserved,
    LocalFileSystem,
    LocalAbstract,
}

/// The kind named by a lower-case keyword; `unix` is another name for
/// `localabstract`.
pub open spec fn network_type_named(s: Seq<char>) -> Option<NetworkType> {
    if s == "tcp"@ {
        Some(NetworkType::Tcp)
    } else if s == "unix"@ || s == "localabstract"@ {
        Some(NetworkType::LocalAbstract)
    } else if s == "dev"@ {
        Some(NetworkType::Dev)
    } else if s == "local"@ {
        Some(NetworkType::Local)
    } else if s == "localreserved"@ {
        Some(NetworkType::LocalReserved)
    } else if s == "localfilesystem"@ {
        Some(NetworkType::LocalFileSystem)
    } else {
        None
    }
}

impl NetworkType {
    /// The prefix written on the wire before the address.
    pub open spec fn prefix(self) -> Seq<char> {
        match self {
            NetworkType::Tcp => "tcp:"@,
            NetworkType::Unix => "localabstract:"@,
            NetworkType::LocalAbstract => "localabstract:"@,
            NetworkType::Dev => "dev:"@,
            NetworkType::Local => "local:"@,
            NetworkType::LocalReserved => "localreserved:"@,
            NetworkType::LocalFileSystem => "localfilesystem:"@,
        }
    }

    /// The wire prefix of this kind.
    pub fn as_str(&self) -> (r: &'static str)
        ensures
            r@ == self.prefix(),
    {
        match self {
            NetworkType::Tcp => "tcp:",
            NetworkType::Unix => "localabstract:",
            NetworkType::LocalAbstract => "localabstract:",
            NetworkType::Dev => "dev:",
            NetworkType::Local => "local:",
            NetworkType::LocalReserved => "localreserved:",
            NetworkType::LocalFileSystem => "localfilesystem:",
        }
    }

    /// The wire prefix of this kind, owned.
    pub fn to_string(&self) -> (r: String)
        ensures
            r@ == self.prefix(),
    {
        String::from_str(self.as_str())
    }

    /// Parses a keyword given in lower case.
    pub fn from_lowercase(s: &str) -> (r: Option<NetworkType>)
        ensures
            r == network_type_named(s@),
    {
        if text_eq(s, "tcp") {
            Some(NetworkType::Tcp)
        } else if text_eq(s, "unix") || text_eq(s, "localabstract") {
            Some(NetworkType::LocalAbstract)
        } else if text_eq(s, "dev") {
            Some(NetworkType::Dev)
        } else if text_eq(s, "local") {
            Some(NetworkType::Local)
        } else if text_eq(s, "localreserved") {
            Some(NetworkType::LocalReserved)
        } else if text_eq(s, "localfilesystem") {
            Some(NetworkType::LocalFileSystem)
        } else {
            None
        }
    }

    /// Parses a keyword in any case.
    pub fn from_str(s: &str) -> (r: Option<NetworkType>)
        ensures
            r == network_type_named(lowercase(s@)),
    {
        let lower = to_lower(s);
        NetworkType::from_lowercase(lower.as_str())
    }
}

/// Kinds of four-byte reply word.
#[derive(Debug, Clone, Copy, PartialEq, Eq, Structural)]
pub enum AdbProtocolRespDataType {
    OKAY,
    FAIL,
    DATA,
    DONE,
    UNKNOWN,
}

impl AdbProtocolRespDataType {
    /// The word as text; empty for an unknown word.
    pub open spec fn text(self) -> Seq<char> {
        match self {
            AdbProtocolRespDataType::OKAY => "OKAY"@,
            AdbProtocolRespDataType::FAIL => "FAIL"@,
            AdbProtocolRespDataType::DATA => "DATA"@,
            AdbProtocolRespDataType::DONE => "DONE"@,
            AdbProtocolRespDataType::UNKNOWN => ""@,
        }
    }

    pub fn as_str(&self) -> (r: &'static str)
        ensures
            r@ == self.text(),
    {
        match self {
            AdbProtocolRespDataType::OKAY => "OKAY",
            AdbProtocolRespDataType::FAIL => "FAIL",
            AdbProtocolRespDataType::DATA => "DATA",
            AdbProtocolRespDataType::DONE => "DONE",
            AdbProtocolRespDataType::UNKNOWN => "",
        }
    }
}

} // verus!
