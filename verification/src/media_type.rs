//! The kind of media that a rule extracts.

use crate::text::{lowercase, lowercased, same_text};
use vstd::prelude::*;

verus! {

/// The kind of media that a rule extracts.
#[derive(Debug, Clone, Copy, PartialEq, Eq, Hash, Structural)]
pub enum MediaType {
    /// Video.
    Video,
    /// Music and other audio.
    Music,
    /// Novels and books.
    Novel,
    /// Comics.
    Comic,
    /// Pictures.
    Image,
    /// Anything else.
    General,
}

impl MediaType {
    /// The name shown to users.
    pub open spec fn display_text(self) -> Seq<char> {
        match self {
            MediaType::Video => "视频"@,
            MediaType::Music => "音乐"@,
            MediaType::Novel => "小说"@,
            MediaType::Comic => "漫画"@,
            MediaType::Image => "图片"@,
            MediaType::General => "通用"@,
        }
    }

    /// The identifier used in stored rules.
    pub open spec fn ident(self) -> Seq<char> {
        match self {
            MediaType::Video => "video"@,
            MediaType::Music => "music"@,
            MediaType::Novel => "novel"@,
            MediaType::Comic => "comic"@,
            MediaType::Image => "image"@,
            MediaType::General => "general"@,
        }
    }

    /// The media type that a lowercase word names, if it names one. Each
    /// type answers to its identifier, and some to a second word.
    pub open spec fn named_by(word: Seq<char>) -> Option<MediaType> {
        if word == "video"@ {
            Some(MediaType::Video)
        } else if word == "music"@ || word == "audio"@ {
            Some(MediaType::Music)
        } else if word == "novel"@ || word == "book"@ {
            Some(MediaType::Novel)
        } else if word == "comic"@ || word == "manga"@ {
            Some(MediaType::Comic)
        } else if word == "image"@ || word == "picture"@ {
            Some(MediaType::Image)
        } else if word == "general"@ {
            Some(MediaType::General)
        } else {
            None
        }
    }

    /// The name shown to users.
    pub fn display_name(&self) -> (r: &'static str)
        ensures
            r@ == self.display_text(),
    {
        match self {
            MediaType::Video => "视频",
            MediaType::Music => "音乐",
            MediaType::Novel => "小说",
            MediaType::Comic => "漫画",
            MediaType::Image => "图片",
            MediaType::General => "通用",
        }
    }

    /// The identifier used in stored rules.
    pub fn as_str(&self) -> (r: &'static str)
        ensures
            r@ == self.ident(),
    {
        match self {
            MediaType::Video => "video",
            MediaType::Music => "music",
            MediaType::Novel => "novel",
            MediaType::Comic => "comic",
            MediaType::Image => "image",
            MediaType::General => "general",
        }
    }

    /// The name shown to users, as an owned string.
    pub fn to_string(&self) -> (r: String)
        ensures
            r@ == self.display_text(),
    {
        self.display_name().to_owned()
    }

    /// Reads a media type from a word, whatever its letter case.
    pub fn from_str(s: &str) -> (r: Result<MediaType, String>)
        ensures
            match r {
                Ok(t) => MediaType::named_by(lowercase(s@)) == Some(t),
                Err(m) => MediaType::named_by(lowercase(s@)) is None && m@
                    == "Unknown media type: "@ + s@,
            },
    {
        let lower = lowercased(s);
        let word = lower.as_str();
        if same_text(word, "video") {
            Ok(MediaType::Video)
        } else if same_text(word, "music") || same_text(word, "audio") {
            Ok(MediaType::Music)
        } else if same_text(word, "novel") || same_text(word, "book") {
            Ok(MediaType::Novel)
        } else if same_text(word, "comic") || same_text(word, "manga") {
            Ok(MediaType::Comic)
        } else if same_text(word, "image") || same_text(word, "picture") {
            Ok(MediaType::Image)
        } else if same_text(word, "general") {
            Ok(MediaType::General)
        } else {
            let mut m = "Unknown media type: ".to_owned();
            m.append(s);
            Err(m)
        }
    }
}

impl Default for MediaType {
    fn default() -> (r: MediaType)
        ensures
            r == MediaType::General,
    {
        MediaType::General
    }
}

impl std::str::FromStr for MediaType {
    type Err = String;

    /// Reads a media type from a word, whatever its letter case, as the
    /// function of the same name on the type does.
    fn from_str(s: &str) -> (r: Result<MediaType, String>)
        ensures
            match r {
                Ok(t) => MediaType::named_by(lowercase(s@)) == Some(t),
                Err(m) => MediaType::named_by(lowercase(s@)) is None && m@
                    == "Unknown media type: "@ + s@,
            },
    {
        MediaType::from_str(s)
    }
}

} // verus!
