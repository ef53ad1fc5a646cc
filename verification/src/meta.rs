use vstd::prelude::*;

verus! {

/// Titles and descriptions are cut to at most this many characters.
pub const META_LIMIT: usize = 200;

/// The meta info of an HTML page: what goes into the page head's
/// `<title>` and `<meta>` tags.
#[derive(Debug)]
pub struct Meta {
    pub title: String,
    pub description: String,
    pub url: Option<String>,
    pub image: Option<String>,
}

/// A sequence cut to at most `META_LIMIT` characters.
pub open spec fn clipped(s: Seq<char>) -> Seq<char> {
    if s.len() <= META_LIMIT {
        s
    } else {
        s.subrange(0, META_LIMIT as int)
    }
}

/// The mathematical model of a `Meta`: its fields as character sequences.
#[verifier::ext_equal]
pub struct MetaModel {
    pub title: Seq<char>,
    pub description: Seq<char>,
    pub url: Option<Seq<char>>,
    pub image: Option<Seq<char>>,
}

impl View for Meta {
    type V = MetaModel;

    open spec fn view(&self) -> MetaModel {
        MetaModel {
            title: self.title@,
            description: self.description@,
            url: match self.url {
                Some(u) => Some(u@),
                None => None,
            },
            image: match self.image {
                Some(i) => Some(i@),
                None => None,
            },
        }
    }
}

/// Whether title, description and image are all populated.
/// The url field is deliberately left out of this check.
pub open spec fn filled(m: MetaModel) -> bool {
    m.title.len() > 0 && m.description.len() > 0 && match m.image {
        Some(image) => image.len() > 0,
        None => false,
    }
}

/// `m` with title and description cut to at most `META_LIMIT` characters.
pub open spec fn meta_clipped(m: MetaModel) -> MetaModel {
    MetaModel { title: clipped(m.title), description: clipped(m.description), ..m }
}

impl Meta {
    /// Whether title, description and image are all populated.
    /// The url field is deliberately left out of this check.
    pub open spec fn spec_filled(&self) -> bool {
        filled(self@)
    }

    pub fn is_filled(&self) -> (r: bool)
        ensures
            r == self.spec_filled(),
    {
        !self.title.as_str().is_empty() && !self.description.as_str().is_empty() && match &self
            .image {
            Some(image) => !image.as_str().is_empty(),
            None => false,
        }
    }

    /// Cut title and description to at most `META_LIMIT` characters,
    /// never splitting a character.
    pub fn truncate(&mut self)
        ensures
            final(self)@ == meta_clipped(old(self)@),
            final(self).title@ == clipped(old(self).title@),
            final(self).description@ == clipped(old(self).description@),
            final(self).url == old(self).url,
            final(self).image == old(self).image,
    {
        if self.title.as_str().unicode_len() > META_LIMIT {
            let cut = self.title.as_str().substring_char(0, META_LIMIT).to_owned();
            self.title = cut;
        }
        if self.description.as_str().unicode_len() > META_LIMIT {
            let cut = self.description.as_str().substring_char(0, META_LIMIT).to_owned();
            self.description = cut;
        }
        proof {
            assert(self@ =~= meta_clipped(old(self)@));
        }
    }
}

impl Default for Meta {
    /// An empty meta: nothing filled in yet.
    fn default() -> (r: Self)
        ensures
            r.title@.len() == 0,
            r.description@.len() == 0,
            r.url is None,
            r.image is None,
    {
        Meta { title: String::new(), description: String::new(), url: None, image: None }
    }
}

} // verus!
