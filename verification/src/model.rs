//! The configuration of the relay.

use vstd::prelude::*;

verus! {

/// Top-level configuration: one [`Client`] per Discord bot that the relay drives.
#[derive(Clone)]
pub struct Config {
    /// The bots to run, one supervisor per entry.
    pub bots: Vec<Client>,
}

/// Configuration of a single Discord bot.
///
/// The type has no `Debug`: three of its fields are secrets.
#[derive(Clone)]
pub struct Client {
    /// User-defined secret that authenticates forwarded requests.
    pub webhook_secret: String,
    /// Spectrum project identifier.
    pub project_id: String,
    /// Spectrum project secret.
    pub project_secret: String,
    /// Discord bot token that opens the gateway connection.
    pub bot_token: String,
}

/// The contents of a [`Client`].
#[verifier::ext_equal]
pub struct ClientView {
    /// See [`Client::webhook_secret`].
    pub webhook_secret: Seq<char>,
    /// See [`Client::project_id`].
    pub project_id: Seq<char>,
    /// See [`Client::project_secret`].
    pub project_secret: Seq<char>,
    /// See [`Client::bot_token`].
    pub bot_token: Seq<char>,
}

impl View for Client {
    type V = ClientView;

    open spec fn view(&self) -> ClientView {
        ClientView {
            webhook_secret: self.webhook_secret@,
            project_id: self.project_id@,
            project_secret: self.project_secret@,
            bot_token: self.bot_token@,
        }
    }
}

/// Two clients have the same contents just where their four fields have.
pub proof fn law_contents_are_the_fields(a: Client, b: Client)
    ensures
        a@ == b@ <==> {
            &&& a.webhook_secret@ == b.webhook_secret@
            &&& a.project_id@ == b.project_id@
            &&& a.project_secret@ == b.project_secret@
            &&& a.bot_token@ == b.bot_token@
        },
        a@.webhook_secret == a.webhook_secret@,
        a@.project_id == a.project_id@,
        a@.project_secret == a.project_secret@,
        a@.bot_token == a.bot_token@,
{
}

} // verus!
