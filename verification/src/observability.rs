//! The records that the service logs of visitor access.

use vstd::prelude::*;
use vstd::string::*;

verus! {

/// The name under which the service logs.
pub const APP_NAME: &'static str = "hhm-api";

/// A record for the log: a message and named fields.
#[derive(Debug)]
pub struct LogRecord {
    pub app_name: String,
    pub message: String,
    pub fields: Vec<(String, String)>,
}

/// A record with its texts as characters.
pub struct Entry {
    pub app_name: Seq<char>,
    pub message: Seq<char>,
    pub fields: Seq<(Seq<char>, Seq<char>)>,
}

impl View for LogRecord {
    type V = Entry;

    open spec fn view(&self) -> Entry {
        Entry {
            app_name: self.app_name@,
            message: self.message@,
            fields: self.fields@.map_values(|f: (String, String)| (f.0@, f.1@)),
        }
    }
}

/// The records with their texts as characters.
pub open spec fn shown(records: Seq<LogRecord>) -> Seq<Entry> {
    records.map_values(|r: LogRecord| r@)
}

/// What is logged of a step in visitor access.
pub open spec fn visitor_entry(
    app_name: Seq<char>,
    event: Seq<char>,
    outcome: Seq<char>,
    door_id: Seq<char>,
) -> Entry {
    Entry {
        app_name,
        message: "visitor access transition"@,
        fields: seq![
            ("event.name"@, event),
            ("event.outcome"@, outcome),
            ("door.id"@, door_id),
        ],
    }
}

/// What is logged of the authorization to issue a QR code.
pub open spec fn authorization_entry(app_name: Seq<char>, outcome: Seq<char>) -> Entry {
    Entry {
        app_name,
        message: "visitor QR authorization"@,
        fields: seq![("event.name"@, "visitor.qr.authorize"@), ("auth.outcome"@, outcome)],
    }
}

/// Makes the records for the log.
#[derive(Debug)]
pub struct Observability {
    app_name: String,
}

impl Observability {
    /// The name under which it logs.
    pub closed spec fn name(&self) -> Seq<char> {
        self.app_name@
    }

    /// One that logs under the name of the service.
    pub fn new() -> (r: Self)
        ensures
            r.name() == APP_NAME@,
    {
        Observability { app_name: APP_NAME.to_owned() }
    }

    /// What is logged of a step in visitor access.
    pub fn visitor_event(&self, event: &str, outcome: &str, door_id: &str) -> (r: LogRecord)
        ensures
            r@ == visitor_entry(self.name(), event@, outcome@, door_id@),
    {
        let mut fields: Vec<(String, String)> = Vec::new();
        fields.push(("event.name".to_owned(), event.to_owned()));
        fields.push(("event.outcome".to_owned(), outcome.to_owned()));
        fields.push(("door.id".to_owned(), door_id.to_owned()));
        let r = LogRecord {
            app_name: self.app_name.clone(),
            message: "visitor access transition".to_owned(),
            fields,
        };
        proof {
            assert(r@.fields =~= visitor_entry(self.name(), event@, outcome@, door_id@).fields);
        }
        r
    }

    /// What is logged of the authorization to issue a QR code.
    pub fn authorization_event(&self, outcome: &str) -> (r: LogRecord)
        ensures
            r@ == authorization_entry(self.name(), outcome@),
    {
        let mut fields: Vec<(String, String)> = Vec::new();
        fields.push(("event.name".to_owned(), "visitor.qr.authorize".to_owned()));
        fields.push(("auth.outcome".to_owned(), outcome.to_owned()));
        let r = LogRecord {
            app_name: self.app_name.clone(),
            message: "visitor QR authorization".to_owned(),
            fields,
        };
        proof {
            assert(r@.fields =~= authorization_entry(self.name(), outcome@).fields);
        }
        r
    }
}

/// Whether a field of this name may be logged.
pub open spec fn loggable(name: Seq<char>) -> bool {
    ||| name == "event.name"@
    ||| name == "event.outcome"@
    ||| name == "door.id"@
    ||| name == "auth.outcome"@
}

/// The log names the event, its outcome and the door, and nothing of a visitor, a caller or a
/// token.
pub proof fn only_bounded_fields_are_logged(
    app_name: Seq<char>,
    event: Seq<char>,
    outcome: Seq<char>,
    door_id: Seq<char>,
)
    ensures
        ({
            let fields = visitor_entry(app_name, event, outcome, door_id).fields;
            forall|i: int| 0 <= i < fields.len() ==> loggable((#[trigger] fields[i]).0)
        }),
        ({
            let fields = authorization_entry(app_name, outcome).fields;
            forall|i: int| 0 <= i < fields.len() ==> loggable((#[trigger] fields[i]).0)
        }),
{
}

} // verus!
