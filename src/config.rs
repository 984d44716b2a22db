//! The configuration of a site build.
use vstd::prelude::*;
use crate::archive::ArchiveOrg;
use crate::site::Site;

verus! {

/// One link of the page footer.
pub struct FooterLink {
    pub name: String,
    pub url: String,
}

/// The links of the page footer.
pub struct FooterLinks {
    pub links: Vec<FooterLink>,
}

/// What a site build is configured with.
pub struct Configuration {
    pub log_level: String,
    pub creator: String,
    pub data: String,
    pub public: String,
    pub site: Site,
    pub footer_links: FooterLinks,
    pub archiveorg: ArchiveOrg,
}

impl Configuration {
    pub fn get_footer_links(&self) -> (r: &FooterLinks)
        ensures
            r == &self.footer_links,
    {
        &self.footer_links
    }

    pub fn get_site(&self) -> (r: &Site)
        ensures
            r == &self.site,
    {
        &self.site
    }

    pub fn get_log_level(&self) -> (r: &str)
        ensures
            r@ == self.log_level@,
    {
        self.log_level.as_str()
    }

    pub fn get_creator(&self) -> (r: &str)
        ensures
            r@ == self.creator@,
    {
        self.creator.as_str()
    }

    pub fn get_data(&self) -> (r: &str)
        ensures
            r@ == self.data@,
    {
        self.data.as_str()
    }

    pub fn get_public(&self) -> (r: &str)
        ensures
            r@ == self.public@,
    {
        self.public.as_str()
    }

    pub fn get_archiveorg(&self) -> (r: &ArchiveOrg)
        ensures
            r == &self.archiveorg,
    {
        &self.archiveorg
    }
}

} // verus!
