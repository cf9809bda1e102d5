//! The configuration that the surrounding process hands to the library.

use vstd::prelude::*;

verus! {

#[derive(Debug)]
pub struct Settings {
    /// IMAP hostname to connect to
    pub imap_hostname: String,
    /// IMAP port number
    pub imap_port: u16,
    /// Email address (or user account) to check on the IMAP server
    pub imap_user: String,
    /// Password for authentication
    pub imap_password: String,
    /// The mailbox to read from
    pub mailbox: String,
    /// Archive the email after processing
    pub expunge: bool,
    /// Allow list of sender domains. If empty, all are allowed.
    pub allowed_domains: Vec<String>,
    /// Github bearer token
    pub github_token: String,
    /// Github repository in the form "user/repo"
    pub github_repo: String,
    /// Github repository branch
    pub github_branch: String,
    /// Path in the repository for blog content; may hold date components
    pub github_post_path: String,
    /// Path in the repository for media; may hold date components
    pub github_media_path: String,
    /// Path to the media folder on the web server; may hold date components
    pub web_media_path: String,
}

} // verus!
