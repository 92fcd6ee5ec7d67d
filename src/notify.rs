use vstd::prelude::*;

verus! {

/// A message to be sent as a notification.
pub struct Notification {
    message: String,
}

impl Notification {
    pub fn new(message: String) -> (r: Notification)
        ensures
            r.message() == message@,
    {
        Notification { message }
    }

    pub closed spec fn message(&self) -> Seq<char> {
        self.message@
    }

    /// The text of the message.
    pub fn text(&self) -> (r: &String)
        ensures
            r@ == self.message(),
    {
        &self.message
    }
}

/// Sends notifications as e-mail through Gmail's SMTP relay.
pub struct SmtpGmail {}

impl SmtpGmail {
    pub fn new() -> (r: SmtpGmail) {
        SmtpGmail {}
    }

    /// The relay that mail goes through.
    pub fn relay(&self) -> (r: &'static str)
        ensures
            r@ == "smtp.gmail.com"@,
    {
        "smtp.gmail.com"
    }

    /// The subject line of every notification.
    pub fn subject(&self) -> (r: &'static str)
        ensures
            r@ == "Noty notification"@,
    {
        "Noty notification"
    }
}

} // verus!
