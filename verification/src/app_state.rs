//! Login state of the application, and the decisions of the pairing loop.

use crate::qr::{
    qr_failure_text, qr_svg, qr_to_svg_data_url, qr_dark, qr_light, QrFailure, QR_MIN_SIDE,
};
use crate::text::joined;
use vstd::prelude::*;

verus! {

/// Seconds to wait for the phone to scan a code before a new one is shown.
pub const PAIRING_TIMEOUT_SECONDS: u64 = 20;

/// Seconds to wait after the pairing service failed.
pub const PAIRING_RETRY_SECONDS: u64 = 2;

/// Login state as the shell shows it.
#[derive(Debug)]
pub struct AppStateRust {
    pub logged_in: bool,
    pub login_in_progress: bool,
    pub qr_url: String,
    pub qr_svg_data_url: String,
    pub status_message: String,
    /// Set by `cancel_login`, read by the pairing loop, cleared by
    /// `start_login`.
    pub login_stop: bool,
}

/// The application state as the shell addresses it.
pub type AppState = AppStateRust;

/// The mathematical value of an `AppStateRust`.
pub struct AppStateView {
    pub logged_in: bool,
    pub login_in_progress: bool,
    pub qr_url: Seq<char>,
    pub qr_svg_data_url: Seq<char>,
    pub status_message: Seq<char>,
    pub login_stop: bool,
}

impl View for AppStateRust {
    type V = AppStateView;

    open spec fn view(&self) -> AppStateView {
        AppStateView {
            logged_in: self.logged_in,
            login_in_progress: self.login_in_progress,
            qr_url: self.qr_url@,
            qr_svg_data_url: self.qr_svg_data_url@,
            status_message: self.status_message@,
            login_stop: self.login_stop,
        }
    }
}

/// What was found of stored credentials.
#[derive(Debug, PartialEq, Eq)]
pub enum StoredCredentials {
    Present,
    Absent,
    /// The store could not be read; the text says why.
    Unreadable(String),
}

/// How a login attempt ended.
#[derive(Debug, PartialEq, Eq)]
pub enum LoginOutcome {
    LoggedIn,
    Cancelled,
    /// The text says what went wrong.
    Failed(String),
}

/// What happened in the pairing loop.
#[derive(Clone, Copy, Debug, PartialEq, Eq, Structural)]
pub enum PairingEvent {
    /// A round begins.
    RoundBegins,
    /// The pairing service could not be reached.
    ServiceUnavailable,
    /// The phone has paired.
    Paired,
    /// The round ended without a pairing.
    NotPaired,
    /// The pairing stream broke.
    StreamFailed,
    /// Nobody scanned the code in time.
    TimedOut,
}

/// What the pairing loop does next.
#[derive(Clone, Copy, Debug, PartialEq, Eq, Structural)]
pub enum PairingAction {
    /// Give up: the login was cancelled.
    Cancel,
    /// Ask the pairing service for a code, after waiting so many seconds.
    RequestCode { delay_seconds: u64 },
    /// Store the credentials and finish as logged in.
    StoreCredentials,
}

/// The next action of the pairing loop.
///
/// A cancellation is seen when a round begins. A pairing ends the loop.
/// After a failure of the service or of the stream the next round waits
/// `PAIRING_RETRY_SECONDS`; after a round without pairing, or a timeout, it
/// begins at once.
pub open spec fn pairing_action(event: PairingEvent, stop_requested: bool) -> PairingAction {
    match event {
        PairingEvent::RoundBegins => if stop_requested {
            PairingAction::Cancel
        } else {
            PairingAction::RequestCode { delay_seconds: 0 }
        },
        PairingEvent::ServiceUnavailable => PairingAction::RequestCode {
            delay_seconds: PAIRING_RETRY_SECONDS,
        },
        PairingEvent::StreamFailed => PairingAction::RequestCode {
            delay_seconds: PAIRING_RETRY_SECONDS,
        },
        PairingEvent::Paired => PairingAction::StoreCredentials,
        PairingEvent::NotPaired => PairingAction::RequestCode { delay_seconds: 0 },
        PairingEvent::TimedOut => PairingAction::RequestCode { delay_seconds: 0 },
    }
}

/// The status after a login attempt ended with `outcome`.
pub open spec fn login_status(outcome: LoginOutcome) -> Seq<char> {
    match outcome {
        LoginOutcome::LoggedIn => "Logged in"@,
        LoginOutcome::Cancelled => "Login cancelled"@,
        LoginOutcome::Failed(error) => "Login failed: "@ + error@,
    }
}

/// Decides what the pairing loop does after `event`.
///
/// After an action that asks for a code, the loop begins its next round
/// with `RoundBegins`, where a cancellation is seen.
pub fn next_pairing_action(event: PairingEvent, stop_requested: bool) -> (action: PairingAction)
    ensures
        action == pairing_action(event, stop_requested),
{
    match event {
        PairingEvent::RoundBegins => if stop_requested {
            PairingAction::Cancel
        } else {
            PairingAction::RequestCode { delay_seconds: 0 }
        },
        PairingEvent::ServiceUnavailable => PairingAction::RequestCode {
            delay_seconds: PAIRING_RETRY_SECONDS,
        },
        PairingEvent::StreamFailed => PairingAction::RequestCode {
            delay_seconds: PAIRING_RETRY_SECONDS,
        },
        PairingEvent::Paired => PairingAction::StoreCredentials,
        PairingEvent::NotPaired => PairingAction::RequestCode { delay_seconds: 0 },
        PairingEvent::TimedOut => PairingAction::RequestCode { delay_seconds: 0 },
    }
}

impl AppState {
    /// The state before anything is known: not logged in.
    pub fn new() -> (state: Self)
        ensures
            state@ == (AppStateView {
                logged_in: false,
                login_in_progress: false,
                qr_url: Seq::empty(),
                qr_svg_data_url: Seq::empty(),
                status_message: "Not logged in"@,
                login_stop: false,
            }),
    {
        AppStateRust {
            logged_in: false,
            login_in_progress: false,
            qr_url: String::new(),
            qr_svg_data_url: String::new(),
            status_message: "Not logged in".to_owned(),
            login_stop: false,
        }
    }

    /// Begins a login by QR code, unless the user is logged in or a login is
    /// under way. Returns whether the pairing loop has to be launched.
    pub fn start_login(&mut self) -> (launch: bool)
        ensures
            launch == (!old(self)@.logged_in && !old(self)@.login_in_progress),
            !launch ==> final(self)@ == old(self)@,
            launch ==> final(self)@ == (AppStateView {
                logged_in: false,
                login_in_progress: true,
                qr_url: Seq::empty(),
                qr_svg_data_url: Seq::empty(),
                status_message: "Starting QR login..."@,
                login_stop: false,
            }),
    {
        if self.logged_in || self.login_in_progress {
            return false;
        }
        self.login_in_progress = true;
        self.qr_url = String::new();
        self.qr_svg_data_url = String::new();
        self.status_message = "Starting QR login...".to_owned();
        self.login_stop = false;
        true
    }

    /// Asks the pairing loop to give up.
    pub fn cancel_login(&mut self)
        ensures
            final(self)@ == (AppStateView { login_stop: true, ..old(self)@ }),
    {
        self.login_stop = true;
    }

    /// Takes in what was found of stored credentials at start-up, and
    /// returns whether the user is logged in.
    pub fn initialize(&mut self, found: StoredCredentials) -> (logged_in: bool)
        ensures
            logged_in == (found is Present),
            final(self)@ == (AppStateView {
                logged_in,
                login_in_progress: false,
                status_message: match found {
                    StoredCredentials::Present => "Logged in"@,
                    StoredCredentials::Absent => "Not logged in"@,
                    StoredCredentials::Unreadable(error) => "Auth load failed: "@ + error@,
                },
                ..old(self)@
            }),
    {
        self.login_in_progress = false;
        match found {
            StoredCredentials::Present => {
                self.logged_in = true;
                self.status_message = "Logged in".to_owned();
                true
            },
            StoredCredentials::Absent => {
                self.logged_in = false;
                self.status_message = "Not logged in".to_owned();
                false
            },
            StoredCredentials::Unreadable(error) => {
                self.logged_in = false;
                self.status_message = joined("Auth load failed: ", error.as_str());
                false
            },
        }
    }

    /// Logs the user out and shows `reason`, or `Not logged in` when no
    /// reason is given.
    pub fn logout(&mut self, reason: &str)
        ensures
            final(self)@ == (AppStateView {
                logged_in: false,
                login_in_progress: false,
                status_message: if reason@.len() == 0 {
                    "Not logged in"@
                } else {
                    reason@
                },
                ..old(self)@
            }),
    {
        self.logged_in = false;
        self.login_in_progress = false;
        if reason.is_empty() {
            self.status_message = "Not logged in".to_owned();
        } else {
            self.status_message = reason.to_owned();
        }
    }

    /// Shows the pairing code `qr_url` as an image to scan. Where no image
    /// can be made, nothing changes and the failure is returned.
    pub fn show_pairing_code(&mut self, qr_url: &str) -> (shown: Result<(), QrFailure>)
        ensures
            shown is Err ==> final(self)@ == old(self)@,
            shown is Err && shown->Err_0 != QrFailure::ImageTooLarge ==> qr_svg(
                qr_url@,
                QR_MIN_SIDE,
                qr_dark(),
                qr_light(),
            ) is None,
            shown is Ok ==> {
                &&& qr_svg(qr_url@, QR_MIN_SIDE, qr_dark(), qr_light()) is Some
                &&& final(self)@ == (AppStateView {
                    qr_url: qr_url@,
                    qr_svg_data_url: crate::qr::svg_data_url_of(
                        vstd::utf8::encode_utf8(
                            qr_svg(qr_url@, QR_MIN_SIDE, qr_dark(), qr_light())->0,
                        ),
                    ),
                    status_message: "Scan the QR code"@,
                    ..old(self)@
                })
            },
    {
        match qr_to_svg_data_url(qr_url) {
            Err(failure) => Err(failure),
            Ok(image) => {
                self.qr_url = qr_url.to_owned();
                self.qr_svg_data_url = image;
                self.status_message = "Scan the QR code".to_owned();
                Ok(())
            },
        }
    }

    /// Takes in the end of a login attempt.
    pub fn finish_login(&mut self, outcome: LoginOutcome)
        ensures
            final(self)@ == (AppStateView {
                logged_in: if outcome is LoggedIn {
                    true
                } else {
                    old(self)@.logged_in
                },
                login_in_progress: false,
                status_message: login_status(outcome),
                ..old(self)@
            }),
    {
        self.login_in_progress = false;
        match outcome {
            LoginOutcome::LoggedIn => {
                self.logged_in = true;
                self.status_message = "Logged in".to_owned();
            },
            LoginOutcome::Cancelled => {
                self.status_message = "Login cancelled".to_owned();
            },
            LoginOutcome::Failed(error) => {
                self.status_message = joined("Login failed: ", error.as_str());
            },
        }
    }
}

impl Default for AppStateRust {
    fn default() -> (state: Self)
        ensures
            state@ == (AppStateView {
                logged_in: false,
                login_in_progress: false,
                qr_url: Seq::empty(),
                qr_svg_data_url: Seq::empty(),
                status_message: "Not logged in"@,
                login_stop: false,
            }),
    {
        AppStateRust::new()
    }
}

/// The words in which a failed pairing code is reported.
pub fn qr_failure_message(failure: QrFailure) -> (words: String)
    ensures
        words@ == qr_failure_text(failure),
{
    failure.message().to_owned()
}

} // verus!
