//! Supported music platforms.

use vstd::prelude::*;

use crate::text::{chars_eq, str_chars};

verus! {

/// A supported music platform; the front end and stored task records name it
/// `"qqmusic"` or `"kuwo"`.
#[derive(Debug, Clone, Copy, PartialEq, Eq, Structural)]
pub enum Platform {
    /// QQ Music
    QqMusic,
    /// Kuwo Music
    Kuwo,
}

/// The platform that a name denotes, if any.
pub open spec fn platform_of_name(name: Seq<char>) -> Option<Platform> {
    if name == "qqmusic"@ {
        Some(Platform::QqMusic)
    } else if name == "kuwo"@ {
        Some(Platform::Kuwo)
    } else {
        None
    }
}

/// The message with which an unknown platform name is refused.
pub open spec fn unsupported_platform_message(name: Seq<char>) -> Seq<char> {
    "不支持的平台: "@ + name
}

impl Platform {
    /// Parses the platform string used by the front end and by stored records.
    pub fn from_str(value: &str) -> (r: Result<Self, String>)
        ensures
            match platform_of_name(value@) {
                Some(p) => r == Ok::<Platform, String>(p),
                None => r is Err && r->Err_0@ == unsupported_platform_message(value@),
            },
    {
        let chars = str_chars(value);
        let qq = str_chars("qqmusic");
        let kuwo = str_chars("kuwo");
        if chars_eq(&chars, &qq) {
            Ok(Platform::QqMusic)
        } else if chars_eq(&chars, &kuwo) {
            Ok(Platform::Kuwo)
        } else {
            let mut message = String::from_str("不支持的平台: ");
            message.append(value);
            Err(message)
        }
    }
}

} // verus!
