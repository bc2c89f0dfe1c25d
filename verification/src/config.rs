//! The minimal site configuration carried by older workspaces: a title,
//! an owner and a template name.

use vstd::prelude::*;

verus! {

/// A site configuration.
#[derive(Debug, Clone)]
pub struct Config {
    pub title: String,
    pub owner: String,
    pub template: String,
}

impl Config {
    pub fn new(title: String, owner: String, template: String) -> (r: Config)
        ensures
            r.title == title,
            r.owner == owner,
            r.template == template,
    {
        Config { title, owner, template }
    }

    pub fn title(&self) -> (r: &str)
        ensures
            r@ == self.title@,
    {
        self.title.as_str()
    }

    pub fn owner(&self) -> (r: &str)
        ensures
            r@ == self.owner@,
    {
        self.owner.as_str()
    }

    pub fn template(&self) -> (r: &str)
        ensures
            r@ == self.template@,
    {
        self.template.as_str()
    }
}

} // verus!
