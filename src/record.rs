use crate::level::Severity;
use vstd::prelude::*;

verus! {

/// One key/value pair of a record's context.
pub struct Field {
    pub key: String,
    pub value: String,
}

/// A log record: severity, the scope (module path) it was emitted from, the
/// rendered message and its context fields.
pub struct Record {
    pub level: Severity,
    pub scope: String,
    pub message: String,
    pub fields: Vec<Field>,
}

/// The value of a record, as the contracts see it.
pub struct RecordView {
    pub level: Severity,
    pub scope: Seq<char>,
    pub message: Seq<char>,
    pub fields: Seq<(Seq<char>, Seq<char>)>,
}

pub open spec fn field_view(f: Field) -> (Seq<char>, Seq<char>) {
    (f.key@, f.value@)
}

impl View for Record {
    type V = RecordView;

    open spec fn view(&self) -> RecordView {
        RecordView {
            level: self.level,
            scope: self.scope@,
            message: self.message@,
            fields: self.fields@.map_values(|f: Field| field_view(f)),
        }
    }
}

impl Field {
    pub fn new(key: String, value: String) -> (r: Field)
        ensures
            r.key@ == key@,
            r.value@ == value@,
    {
        Field { key, value }
    }
}

impl Record {
    pub fn new(level: Severity, scope: String, message: String, fields: Vec<Field>) -> (r: Record)
        ensures
            r.level == level,
            r.scope@ == scope@,
            r.message@ == message@,
            r.fields@ == fields@,
    {
        Record { level, scope, message, fields }
    }

    /// A second record with the same value, for handing one record to
    /// several sinks.
    pub fn duplicate(&self) -> (r: Record)
        ensures
            r@ == self@,
    {
        let mut fields: Vec<Field> = Vec::new();
        let n = self.fields.len();
        for i in 0..n
            invariant
                n == self.fields@.len(),
                fields@.len() == i,
                forall|j: int|
                    0 <= j < i ==> field_view(#[trigger] fields@[j]) == field_view(self.fields@[j]),
        {
            let f = &self.fields[i];
            fields.push(Field { key: f.key.clone(), value: f.value.clone() });
        }
        let r = Record {
            level: self.level,
            scope: self.scope.clone(),
            message: self.message.clone(),
            fields,
        };
        assert(r@.fields =~= self@.fields);
        r
    }
}

} // verus!
