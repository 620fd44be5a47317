//! Settings of one synchronisation: which remote space, which folder.

use vstd::prelude::*;
use crate::path::{join, spec_join};
use crate::text::concat;
use crate::decimal::{decimal, format_i32};
use crate::database::DB_NAME;
use crate::activity::JobIdentifier;
use vstd::string::*;

verus! {

/// Identifier of a remote shared space.
pub type WorkspaceId = i32;

/// Settings of one synchronisation.
#[derive(Clone)]
pub struct Context {
    pub instance_name: String,
    pub base_address: String,
    pub username: String,
    pub password: String,
    pub folder_path: String,
    pub database_path: String,
    pub workspace_id: WorkspaceId,
    pub workspace_name: String,
    pub exit_after_sync: bool,
}

/// The address of the remote API: the protocol, the address, then `/api/`.
pub open spec fn api_address(ssl: bool, address: Seq<char>) -> Seq<char> {
    (if ssl { "https"@ } else { "http"@ }) + "://"@ + address + "/api/"@
}

impl Context {
    /// Settings for synchronising space `workspace_id` of the instance at
    /// `address` into `folder_path`.
    pub fn new(
        ssl: bool,
        address: String,
        username: String,
        password: String,
        folder_path: String,
        workspace_id: WorkspaceId,
        workspace_name: String,
        exit_after_sync: bool,
    ) -> (r: Context)
        ensures
            r.instance_name@ == address@,
            r.base_address@ == api_address(ssl, address@),
            r.username == username,
            r.password == password,
            r.folder_path == folder_path,
            r.database_path@ == spec_join(folder_path@, DB_NAME@),
            r.workspace_id == workspace_id,
            r.workspace_name == workspace_name,
            r.exit_after_sync == exit_after_sync,
    {
        let protocol = if ssl { "https" } else { "http" };
        let with_scheme = concat(protocol, "://");
        let with_address = concat(with_scheme.as_str(), address.as_str());
        let base_address = concat(with_address.as_str(), "/api/");
        assert(base_address@ =~= api_address(ssl, address@));
        let database_path = join(folder_path.as_str(), DB_NAME);
        Context {
            instance_name: address,
            base_address,
            username,
            password,
            folder_path,
            database_path,
            workspace_id,
            workspace_name,
            exit_after_sync,
        }
    }

    /// The address of a resource of the synchronised space.
    pub fn workspace_url(&self, suffix: &str) -> (r: String)
        ensures
            r@ == self.base_address@ + "workspaces/"@ + decimal(self.workspace_id as int) + "/"@ + suffix@,
    {
        let a = concat(self.base_address.as_str(), "workspaces/");
        let b = concat(a.as_str(), format_i32(self.workspace_id).as_str());
        let c = concat(b.as_str(), "/");
        let r = concat(c.as_str(), suffix);
        assert(r@ =~= self.base_address@ + "workspaces/"@ + decimal(self.workspace_id as int) + "/"@ + suffix@);
        r
    }

    /// What identifies the jobs of this synchronisation.
    pub fn job_identifier(&self) -> (r: JobIdentifier)
        ensures
            r.instance_name == self.instance_name,
            r.workspace_id == self.workspace_id,
            r.workspace_name == self.workspace_name,
    {
        JobIdentifier {
            instance_name: self.instance_name.clone(),
            workspace_id: self.workspace_id,
            workspace_name: self.workspace_name.clone(),
        }
    }
}

/// What `{:?}` writes for a string (`<str as Debug>::fmt`): the string
/// between double quotes, with quotes, backslashes and characters that do not
/// print escaped.
pub uninterp spec fn debug_text(s: Seq<char>) -> Seq<char>;

/// Writes a string as `{:?}` does.  Trusted: the result is `<str as
/// Debug>::fmt` applied to `s`, named [`debug_text`]; which characters it
/// escapes, and how, is not written out here.
#[verifier::external_body]
fn debug_str(s: &str) -> (r: String)
    ensures
        r@ == debug_text(s@),
{
    format!("{:?}", s)
}

/// The text form of settings: the fields worth showing, strings written as
/// `{:?}` writes them, the password left out.
pub open spec fn context_description(c: Context) -> Seq<char> {
    "Context { base_address: "@ + debug_text(c.base_address@) + ", username: "@ + debug_text(c.username@)
        + ", folder_path: "@ + debug_text(c.folder_path@) + ", base_address: "@ + debug_text(c.base_address@)
        + ", workspace_id: "@ + decimal(c.workspace_id as int) + ", exit_after_sync: "@ + (if c.exit_after_sync {
        "true"@
    } else {
        "false"@
    }) + " }"@
}

impl Context {
    /// The text form of these settings, as [`context_description`] states: it
    /// never shows the password.
    pub fn description(&self) -> (r: String)
        ensures
            r@ == context_description(*self),
    {
        let base = debug_str(self.base_address.as_str());
        let a = concat("Context { base_address: ", base.as_str());
        let b = concat(a.as_str(), ", username: ");
        let c = concat(b.as_str(), debug_str(self.username.as_str()).as_str());
        let d = concat(c.as_str(), ", folder_path: ");
        let e = concat(d.as_str(), debug_str(self.folder_path.as_str()).as_str());
        let f = concat(e.as_str(), ", base_address: ");
        let g = concat(f.as_str(), base.as_str());
        let h = concat(g.as_str(), ", workspace_id: ");
        let i = concat(h.as_str(), format_i32(self.workspace_id).as_str());
        let j = concat(i.as_str(), ", exit_after_sync: ");
        let flag = if self.exit_after_sync { "true" } else { "false" };
        let k = concat(j.as_str(), flag);
        let r = concat(k.as_str(), " }");
        assert(r@ =~= context_description(*self));
        r
    }
}

/// Command line options of the synchronisation program.
#[derive(Debug, Clone)]
pub struct Opt {
    pub path: String,
    pub tracim_address: String,
    pub workspace_id: i32,
    pub username: String,
    pub no_ssl: bool,
    pub env_var_pass: Option<String>,
    pub exit_after_sync: bool,
}

impl Opt {
    /// The settings these options describe, with the given password and the
    /// canonical form of the folder path (the command line names no space name).
    pub fn to_context(&self, password: String, folder_path: String) -> (r: Context)
        ensures
            r.instance_name@ == self.tracim_address@,
            r.base_address@ == api_address(!self.no_ssl, self.tracim_address@),
            r.username@ == self.username@,
            r.password == password,
            r.folder_path == folder_path,
            r.database_path@ == spec_join(folder_path@, DB_NAME@),
            r.workspace_id == self.workspace_id,
            r.workspace_name@ == Seq::<char>::empty(),
            r.exit_after_sync == self.exit_after_sync,
    {
        Context::new(
            !self.no_ssl,
            self.tracim_address.clone(),
            self.username.clone(),
            password,
            folder_path,
            self.workspace_id,
            String::new(),
            self.exit_after_sync,
        )
    }
}

/// Messages to the main loop of the program.
#[derive(Debug, PartialEq, Eq, Structural, Clone, Copy)]
pub enum MainMessage {
    ConnectionLost,
    Exit,
}

} // verus!
