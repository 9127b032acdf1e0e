//! The state of the provider and its answers.

use crate::capabilities::CAPABILITIES;
use crate::incident::opt_view;
use crate::text::{concat, texts};
use vstd::prelude::*;

verus! {

/// The frontend analyzer provider.
#[derive(Debug)]
pub struct FrontendProvider {
    /// The project that is analyzed, once the provider has been initialized.
    pub project_root: Option<String>,
    /// Number of context lines to include around code snippets.
    pub context_lines: usize,
}

/// The answer to an initialization.
#[derive(Debug)]
pub struct InitReply {
    pub error: String,
    pub successful: bool,
    pub id: i64,
}

impl FrontendProvider {
    /// A provider that has not been initialized.
    pub fn new(context_lines: usize) -> (r: FrontendProvider)
        ensures
            r.context_lines == context_lines,
            r.project_root is None,
    {
        FrontendProvider { project_root: None, context_lines }
    }

    /// Initializes the provider with a location, if it exists. Where it does not, the provider
    /// stays as it is.
    pub fn init(&mut self, location: &str, is_there: bool) -> (r: InitReply)
        ensures
            final(self).context_lines == old(self).context_lines,
            r.successful == is_there,
            if is_there {
                opt_view(final(self).project_root) == Some(location@) && r.error@.len() == 0
                    && r.id == 1
            } else {
                final(self).project_root == old(self).project_root && r.error@
                    == "Location does not exist: "@ + location@ && r.id == 0
            },
    {
        if is_there {
            self.project_root = Some(location.to_owned());
            InitReply { error: String::new(), successful: true, id: 1 }
        } else {
            InitReply {
                error: concat("Location does not exist: ", location),
                successful: false,
                id: 0,
            }
        }
    }

    /// The project that is analyzed, or why there is none.
    pub fn root(&self) -> (r: Result<&str, &'static str>)
        ensures
            match r {
                Ok(root) => opt_view(self.project_root) == Some(root@),
                Err(message) => self.project_root is None && message@
                    == "Provider not initialized"@,
            },
    {
        match &self.project_root {
            Some(root) => Ok(root.as_str()),
            None => Err("Provider not initialized"),
        }
    }

    /// The names of what the provider can analyze.
    pub fn capabilities(&self) -> (out: Vec<String>)
        ensures
            texts(out@) == seq!["referenced"@, "cssclass"@, "cssvar"@, "dependency"@],
    {
        let mut out: Vec<String> = Vec::new();
        out.push(CAPABILITIES[0].to_owned());
        out.push(CAPABILITIES[1].to_owned());
        out.push(CAPABILITIES[2].to_owned());
        out.push(CAPABILITIES[3].to_owned());
        assert(texts(out@) =~= seq!["referenced"@, "cssclass"@, "cssvar"@, "dependency"@]);
        out
    }
}

} // verus!
