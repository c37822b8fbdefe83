//! Validation of structured request bodies: every field rule is checked and
//! every violation is reported, keyed by field, before a handler sees the
//! value.
use vstd::prelude::*;
use crate::codec::{chars_of, same_chars, string_of};

verus! {

/// The violations found in one payload: for each field that broke a rule,
/// its messages in the order the rules were checked. Built only by `new`
/// and `add`, it never names a field twice.
#[derive(Clone, Debug)]
pub struct ValidationErrorMessage {
    entries: Vec<(String, Vec<String>)>,
}

/// The entries of a violation list, as values.
pub open spec fn entries_view(entries: Seq<(String, Vec<String>)>) -> Seq<(Seq<char>, Seq<Seq<char>>)> {
    entries.map_values(|e: (String, Vec<String>)| (e.0@, e.1@.map_values(|m: String| m@)))
}

/// Where `field` stands among `entries`, if it does.
pub open spec fn index_of(entries: Seq<(Seq<char>, Seq<Seq<char>>)>, field: Seq<char>) -> Option<int> {
    if exists|i: int| 0 <= i < entries.len() && entries[i].0 == field {
        Some(choose|i: int| 0 <= i < entries.len() && entries[i].0 == field)
    } else {
        None
    }
}

/// No field appears twice.
pub open spec fn unique_fields(entries: Seq<(Seq<char>, Seq<Seq<char>>)>) -> bool {
    forall|i: int, j: int|
        0 <= i < entries.len() && 0 <= j < entries.len() && entries[i].0 == entries[j].0 ==> i == j
}

/// The violation list after `message` is recorded against `field`: appended
/// to the field's messages, or as a new last entry.
pub open spec fn with_violation(
    entries: Seq<(Seq<char>, Seq<Seq<char>>)>,
    field: Seq<char>,
    message: Seq<char>,
) -> Seq<(Seq<char>, Seq<Seq<char>>)> {
    match index_of(entries, field) {
        Some(i) => entries.update(i, (field, entries[i].1.push(message))),
        None => entries.push((field, seq![message])),
    }
}

/// The violation list that a sequence of (field, message) pairs builds, in order.
pub open spec fn aggregate(violations: Seq<(Seq<char>, Seq<char>)>) -> Seq<
    (Seq<char>, Seq<Seq<char>>),
>
    decreases violations.len(),
{
    if violations.len() == 0 {
        Seq::empty()
    } else {
        let last = violations.last();
        with_violation(aggregate(violations.drop_last()), last.0, last.1)
    }
}

impl View for ValidationErrorMessage {
    type V = Seq<(Seq<char>, Seq<Seq<char>>)>;

    closed spec fn view(&self) -> Self::V {
        entries_view(self.entries@)
    }
}

proof fn lemma_with_violation_unique(
    entries: Seq<(Seq<char>, Seq<Seq<char>>)>,
    field: Seq<char>,
    message: Seq<char>,
)
    requires
        unique_fields(entries),
    ensures
        unique_fields(with_violation(entries, field, message)),
        with_violation(entries, field, message).len() > 0,
{
    let r = with_violation(entries, field, message);
    match index_of(entries, field) {
        Some(i) => {
            assert forall|a: int, b: int|
                0 <= a < r.len() && 0 <= b < r.len() && r[a].0 == r[b].0 implies a == b by {
                assert(r[a].0 == entries[a].0);
                assert(r[b].0 == entries[b].0);
            }
        },
        None => {
            assert forall|a: int, b: int|
                0 <= a < r.len() && 0 <= b < r.len() && r[a].0 == r[b].0 implies a == b by {
                if a < entries.len() && b == entries.len() {
                    assert(entries[a].0 == field);
                }
                if b < entries.len() && a == entries.len() {
                    assert(entries[b].0 == field);
                }
            }
        },
    }
}

/// The violations that `aggregate` builds never name a field twice, and
/// there is at least one entry as soon as there is one violation.
pub proof fn lemma_aggregate_unique(violations: Seq<(Seq<char>, Seq<char>)>)
    ensures
        unique_fields(aggregate(violations)),
        violations.len() > 0 ==> aggregate(violations).len() > 0,
    decreases violations.len(),
{
    if violations.len() > 0 {
        lemma_aggregate_unique(violations.drop_last());
        let last = violations.last();
        lemma_with_violation_unique(aggregate(violations.drop_last()), last.0, last.1);
    }
}

/// Every field named by a violation has an entry in the aggregate.
pub proof fn lemma_aggregate_names_every_field(violations: Seq<(Seq<char>, Seq<char>)>, k: int)
    requires
        0 <= k < violations.len(),
    ensures
        index_of(aggregate(violations), violations[k].0) is Some,
    decreases violations.len(),
{
    let rest = violations.drop_last();
    let last = violations.last();
    let before = aggregate(rest);
    let after = aggregate(violations);
    if k == violations.len() - 1 {
        match index_of(before, last.0) {
            Some(i) => {
                assert(after[i].0 == last.0);
            },
            None => {
                assert(after[before.len() as int].0 == last.0);
            },
        }
    } else {
        lemma_aggregate_names_every_field(rest, k);
        let f = violations[k].0;
        let j = index_of(before, f)->0;
        assert(rest[k] == violations[k]);
        assert(after[j].0 == f);
    }
}

/// Two violations of rules on different fields both reach the caller.
pub proof fn lemma_two_fields_reported(
    violations: Seq<(Seq<char>, Seq<char>)>,
    a: int,
    b: int,
)
    requires
        0 <= a < violations.len(),
        0 <= b < violations.len(),
    ensures
        index_of(aggregate(violations), violations[a].0) is Some,
        index_of(aggregate(violations), violations[b].0) is Some,
{
    lemma_aggregate_names_every_field(violations, a);
    lemma_aggregate_names_every_field(violations, b);
}

impl ValidationErrorMessage {
    /// No violation yet.
    pub fn new() -> (r: Self)
        ensures
            r@ == Seq::<(Seq<char>, Seq<Seq<char>>)>::empty(),
    {
        let r = ValidationErrorMessage { entries: Vec::new() };
        proof {
            assert(r@ =~= Seq::<(Seq<char>, Seq<Seq<char>>)>::empty());
        }
        r
    }

    /// Whether no violation was recorded.
    pub fn is_empty(&self) -> (r: bool)
        ensures
            r == (self@.len() == 0),
    {
        self.entries.len() == 0
    }

    /// The number of fields with violations.
    pub fn field_count(&self) -> (r: usize)
        ensures
            r == self@.len(),
    {
        self.entries.len()
    }

    /// The messages recorded against `field`, in order; none if it has none.
    pub fn messages(&self, field: &str) -> (r: Vec<String>)
        requires
            unique_fields(self@),
        ensures
            r@.map_values(|m: String| m@) == match index_of(self@, field@) {
                Some(i) => self@[i].1,
                None => Seq::empty(),
            },
    {
        let wanted = chars_of(field);
        let mut i: usize = 0;
        while i < self.entries.len()
            invariant
                i <= self.entries@.len(),
                wanted@ == field@,
                unique_fields(self@),
                forall|j: int| 0 <= j < i ==> self@[j].0 != field@,
            decreases self.entries.len() - i,
        {
            let here = chars_of(self.entries[i].0.as_str());
            if same_chars(&here, &wanted) {
                proof {
                    assert(self@[i as int].0 == field@);
                    let k = index_of(self@, field@)->0;
                    assert(k == i as int) by {
                        if k < i {
                            assert(self@[k].0 == field@);
                        }
                        if k > i {
                            assert(self@[k].0 == self@[i as int].0);
                        }
                    }
                }
                return copy_texts(&self.entries[i].1);
            }
            i = i + 1;
        }
        let r: Vec<String> = Vec::new();
        proof {
            assert(r@.map_values(|m: String| m@) =~= Seq::<Seq<char>>::empty());
        }
        r
    }

    /// Records `message` against `field`.
    pub fn add(&mut self, field: &str, message: &str)
        requires
            unique_fields(old(self)@),
        ensures
            final(self)@ == with_violation(old(self)@, field@, message@),
            unique_fields(final(self)@),
    {
        let wanted = chars_of(field);
        let mut i: usize = 0;
        let ghost before = self@;
        let ghost before_entries = self.entries@;
        while i < self.entries.len()
            invariant
                i <= self.entries@.len(),
                self@ == before,
                before == old(self)@,
                self.entries@ == before_entries,
                wanted@ == field@,
                unique_fields(before),
                forall|j: int| 0 <= j < i ==> self@[j].0 != field@,
            decreases self.entries.len() - i,
        {
            let here = chars_of(self.entries[i].0.as_str());
            if same_chars(&here, &wanted) {
                let mut msgs = copy_texts(&self.entries[i].1);
                let name = self.entries[i].0.clone();
                msgs.push(message.to_string());
                proof {
                    assert(before[i as int].0 == field@);
                    let k = index_of(before, field@)->0;
                    assert(k == i as int) by {
                        if k < i {
                            assert(before[k].0 == field@);
                        }
                        if k > i {
                            assert(before[k].0 == before[i as int].0);
                        }
                    }
                }
                proof {
                    lemma_with_violation_unique(before, field@, message@);
                    assert(msgs@.map_values(|m: String| m@) =~= before[i as int].1.push(message@));
                    assert(entries_view(self.entries@.update(i as int, (name, msgs))) =~= with_violation(
                        before,
                        field@,
                        message@,
                    ));
                }
                let ghost updated = (name, msgs);
                self.entries.set(i, (name, msgs));
                proof {
                    assert(self.entries@ == before_entries.update(i as int, updated));
                    assert(self@ == entries_view(before_entries.update(i as int, updated)));
                    assert(self@ == with_violation(before, field@, message@));
                }
                return;
            }
            i = i + 1;
        }
        let mut msgs: Vec<String> = Vec::new();
        msgs.push(message.to_string());
        let entry = (field.to_string(), msgs);
        proof {
            assert(msgs@.map_values(|m: String| m@) =~= seq![message@]);
            assert(index_of(before, field@) is None);
            lemma_with_violation_unique(before, field@, message@);
            assert(entries_view(self.entries@.push(entry)) =~= with_violation(
                before,
                field@,
                message@,
            ));
        }
        self.entries.push(entry);
    }

    /// The violations, one line per message: the field, `: `, the message.
    pub fn to_text(&self) -> (r: String)
        ensures
            r@ == lines_of(self@),
    {
        let mut out: Vec<char> = Vec::new();
        let mut i: usize = 0;
        while i < self.entries.len()
            invariant
                i <= self.entries@.len(),
                out@ == lines_of(self@.subrange(0, i as int)),
            decreases self.entries.len() - i,
        {
            let field = chars_of(self.entries[i].0.as_str());
            let msgs = &self.entries[i].1;
            let ghost start = out@;
            let mut k: usize = 0;
            while k < msgs.len()
                invariant
                    k <= msgs@.len(),
                    field@ == self@[i as int].0,
                    msgs@.map_values(|m: String| m@) == self@[i as int].1,
                    out@ == start + entry_lines(field@, self@[i as int].1.subrange(0, k as int)),
                decreases msgs.len() - k,
            {
                let msg = chars_of(msgs[k].as_str());
                let ghost mid = out@;
                append_chars(&mut out, &field);
                out.push(':');
                out.push(' ');
                append_chars(&mut out, &msg);
                out.push('\n');
                proof {
                    let done = self@[i as int].1.subrange(0, k as int);
                    let now = self@[i as int].1.subrange(0, k + 1);
                    assert(now.drop_last() =~= done);
                    assert(now.last() == msg@);
                    assert(out@ =~= start + entry_lines(field@, now));
                }
                k = k + 1;
            }
            proof {
                assert(self@[i as int].1.subrange(0, k as int) =~= self@[i as int].1);
                let done = self@.subrange(0, i as int);
                let now = self@.subrange(0, i + 1);
                assert(now.drop_last() =~= done);
            }
            i = i + 1;
        }
        proof {
            assert(self@.subrange(0, self@.len() as int) =~= self@);
        }
        string_of(&out)
    }
}

/// The lines of one field's messages.
pub open spec fn entry_lines(field: Seq<char>, messages: Seq<Seq<char>>) -> Seq<char>
    decreases messages.len(),
{
    if messages.len() == 0 {
        Seq::empty()
    } else {
        entry_lines(field, messages.drop_last()) + field + seq![':', ' '] + messages.last() + seq![
            '\n',
        ]
    }
}

/// The lines of a whole violation list.
pub open spec fn lines_of(entries: Seq<(Seq<char>, Seq<Seq<char>>)>) -> Seq<char>
    decreases entries.len(),
{
    if entries.len() == 0 {
        Seq::empty()
    } else {
        lines_of(entries.drop_last()) + entry_lines(entries.last().0, entries.last().1)
    }
}

fn copy_texts(v: &Vec<String>) -> (r: Vec<String>)
    ensures
        r@.map_values(|m: String| m@) == v@.map_values(|m: String| m@),
{
    let mut r: Vec<String> = Vec::new();
    let mut i: usize = 0;
    while i < v.len()
        invariant
            i <= v@.len(),
            r@.len() == i,
            forall|j: int| 0 <= j < i ==> r@[j]@ == v@[j]@,
        decreases v.len() - i,
    {
        r.push(v[i].clone());
        i = i + 1;
    }
    proof {
        assert(r@.map_values(|m: String| m@) =~= v@.map_values(|m: String| m@));
    }
    r
}

fn append_chars(out: &mut Vec<char>, more: &Vec<char>)
    ensures
        final(out)@ == old(out)@ + more@,
{
    let ghost start = out@;
    let mut i: usize = 0;
    while i < more.len()
        invariant
            i <= more@.len(),
            out@ == start + more@.subrange(0, i as int),
        decreases more.len() - i,
    {
        out.push(more[i]);
        i = i + 1;
        proof {
            assert(out@ =~= start + more@.subrange(0, i as int));
        }
    }
    proof {
        assert(more@.subrange(0, more@.len() as int) =~= more@);
    }
}

/// `violations` with `item` added at the end when `broken` holds.
pub open spec fn push_if(
    violations: Seq<(Seq<char>, Seq<char>)>,
    broken: bool,
    item: (Seq<char>, Seq<char>),
) -> Seq<(Seq<char>, Seq<char>)> {
    if broken {
        violations.push(item)
    } else {
        violations
    }
}

/// Whether `value` breaks the rule that its length lie between `min` and `max`.
pub open spec fn length_broken(value: Seq<char>, min: nat, max: nat) -> bool {
    value.len() < min || value.len() > max
}

proof fn lemma_aggregate_push(violations: Seq<(Seq<char>, Seq<char>)>, item: (Seq<char>, Seq<char>))
    ensures
        aggregate(violations.push(item)) == with_violation(aggregate(violations), item.0, item.1),
{
    assert(violations.push(item).drop_last() =~= violations);
}

/// A payload whose fields are checked by rules before it is used.
pub trait Validate {
    /// Each broken rule, as its field and its message, in the order of the rules.
    spec fn violations(&self) -> Seq<(Seq<char>, Seq<char>)>;

    /// Checks every rule and reports every violation.
    fn validate(&self) -> (r: Result<(), ValidationErrorMessage>)
        ensures
            match r {
                Ok(()) => self.violations().len() == 0,
                Err(m) => self.violations().len() > 0 && m@ == aggregate(self.violations())
                    && unique_fields(m@),
            },
    ;
}

fn check_length(
    errors: &mut ValidationErrorMessage,
    field: &str,
    value: &str,
    min: usize,
    max: usize,
    message: &str,
) -> (broken: bool)
    requires
        unique_fields(old(errors)@),
    ensures
        broken == length_broken(value@, min as nat, max as nat),
        final(errors)@ == if broken {
            with_violation(old(errors)@, field@, message@)
        } else {
            old(errors)@
        },
        unique_fields(final(errors)@),
{
    let len = value.unicode_len();
    let broken = len < min || len > max;
    if broken {
        errors.add(field, message);
    }
    broken
}

fn finish(errors: ValidationErrorMessage, violations: Ghost<Seq<(Seq<char>, Seq<char>)>>) -> (r:
    Result<(), ValidationErrorMessage>)
    requires
        errors@ == aggregate(violations@),
    ensures
        match r {
            Ok(()) => violations@.len() == 0,
            Err(m) => violations@.len() > 0 && m@ == aggregate(violations@) && unique_fields(m@),
        },
{
    proof {
        lemma_aggregate_unique(violations@);
    }
    if errors.is_empty() {
        Ok(())
    } else {
        Err(errors)
    }
}

/// Shortest and longest login, in characters.
pub const LOGIN_MIN: usize = 3;
pub const LOGIN_MAX: usize = 32;
/// Shortest and longest display name, in characters.
pub const NAME_MIN: usize = 3;
pub const NAME_MAX: usize = 16;
/// Shortest and longest password, in characters.
pub const PASSWORD_MIN: usize = 8;
pub const PASSWORD_MAX: usize = 128;

/// The message for a login of the wrong length.
pub const LOGIN_MESSAGE: &'static str = "The login must be between 3 and 32 characters long.";
/// The message for a name of the wrong length.
pub const NAME_MESSAGE: &'static str = "The name must be between 3 and 16 characters long.";
/// The message for a password of the wrong length.
pub const PASSWORD_MESSAGE: &'static str = "The password must be between 8 and 128 characters long.";

/// A new account.
#[derive(Clone, Debug)]
pub struct InsertableUser {
    pub login: String,
    pub name: String,
    pub password: String,
}

/// Credentials presented to log in.
#[derive(Clone, Debug)]
pub struct AuthenticableUser {
    pub login: String,
    pub password: String,
}

/// New profile data for an existing account.
#[derive(Clone, Debug)]
pub struct UpdatableUser {
    pub id: i32,
    pub name: String,
    pub pfp: Option<String>,
}

impl Validate for InsertableUser {
    open spec fn violations(&self) -> Seq<(Seq<char>, Seq<char>)> {
        push_if(
            push_if(
                push_if(
                    Seq::empty(),
                    length_broken(self.login@, LOGIN_MIN as nat, LOGIN_MAX as nat),
                    ("login"@, LOGIN_MESSAGE@),
                ),
                length_broken(self.name@, NAME_MIN as nat, NAME_MAX as nat),
                ("name"@, NAME_MESSAGE@),
            ),
            length_broken(self.password@, PASSWORD_MIN as nat, PASSWORD_MAX as nat),
            ("password"@, PASSWORD_MESSAGE@),
        )
    }

    fn validate(&self) -> (r: Result<(), ValidationErrorMessage>) {
        let mut errors = ValidationErrorMessage::new();
        let ghost v0 = Seq::<(Seq<char>, Seq<char>)>::empty();
        let b1 = check_length(&mut errors, "login", self.login.as_str(), LOGIN_MIN, LOGIN_MAX, LOGIN_MESSAGE);
        let ghost v1 = push_if(v0, b1, ("login"@, LOGIN_MESSAGE@));
        proof {
            lemma_aggregate_push(v0, ("login"@, LOGIN_MESSAGE@));
        }
        let b2 = check_length(&mut errors, "name", self.name.as_str(), NAME_MIN, NAME_MAX, NAME_MESSAGE);
        let ghost v2 = push_if(v1, b2, ("name"@, NAME_MESSAGE@));
        proof {
            lemma_aggregate_push(v1, ("name"@, NAME_MESSAGE@));
        }
        let b3 = check_length(
            &mut errors,
            "password",
            self.password.as_str(),
            PASSWORD_MIN,
            PASSWORD_MAX,
            PASSWORD_MESSAGE,
        );
        let ghost v3 = push_if(v2, b3, ("password"@, PASSWORD_MESSAGE@));
        proof {
            lemma_aggregate_push(v2, ("password"@, PASSWORD_MESSAGE@));
        }
        finish(errors, Ghost(v3))
    }
}

impl Validate for AuthenticableUser {
    open spec fn violations(&self) -> Seq<(Seq<char>, Seq<char>)> {
        push_if(
            push_if(
                Seq::empty(),
                length_broken(self.login@, LOGIN_MIN as nat, LOGIN_MAX as nat),
                ("login"@, LOGIN_MESSAGE@),
            ),
            length_broken(self.password@, PASSWORD_MIN as nat, PASSWORD_MAX as nat),
            ("password"@, PASSWORD_MESSAGE@),
        )
    }

    fn validate(&self) -> (r: Result<(), ValidationErrorMessage>) {
        let mut errors = ValidationErrorMessage::new();
        let ghost v0 = Seq::<(Seq<char>, Seq<char>)>::empty();
        let b1 = check_length(&mut errors, "login", self.login.as_str(), LOGIN_MIN, LOGIN_MAX, LOGIN_MESSAGE);
        let ghost v1 = push_if(v0, b1, ("login"@, LOGIN_MESSAGE@));
        proof {
            lemma_aggregate_push(v0, ("login"@, LOGIN_MESSAGE@));
        }
        let b2 = check_length(
            &mut errors,
            "password",
            self.password.as_str(),
            PASSWORD_MIN,
            PASSWORD_MAX,
            PASSWORD_MESSAGE,
        );
        let ghost v2 = push_if(v1, b2, ("password"@, PASSWORD_MESSAGE@));
        proof {
            lemma_aggregate_push(v1, ("password"@, PASSWORD_MESSAGE@));
        }
        finish(errors, Ghost(v2))
    }
}

impl Validate for UpdatableUser {
    open spec fn violations(&self) -> Seq<(Seq<char>, Seq<char>)> {
        push_if(
            Seq::empty(),
            length_broken(self.name@, NAME_MIN as nat, NAME_MAX as nat),
            ("name"@, NAME_MESSAGE@),
        )
    }

    fn validate(&self) -> (r: Result<(), ValidationErrorMessage>) {
        let mut errors = ValidationErrorMessage::new();
        let ghost v0 = Seq::<(Seq<char>, Seq<char>)>::empty();
        let b1 = check_length(&mut errors, "name", self.name.as_str(), NAME_MIN, NAME_MAX, NAME_MESSAGE);
        let ghost v1 = push_if(v0, b1, ("name"@, NAME_MESSAGE@));
        proof {
            lemma_aggregate_push(v0, ("name"@, NAME_MESSAGE@));
        }
        finish(errors, Ghost(v1))
    }
}

/// What the transport reported when a body could not be parsed at all.
#[derive(Clone, Debug)]
pub struct ParseRejection {
    pub status: u16,
    pub body: String,
}

/// Why a structured body was refused.
#[derive(Clone, Debug)]
pub enum JsonValidatorRejection {
    /// The body could not be parsed.
    JsonAxumRejection(ParseRejection),
    /// The body was parsed, but broke field rules.
    ValidationRejection(ValidationErrorMessage),
}

/// The status of a response to a body that broke field rules.
pub const BAD_REQUEST: u16 = 400;

impl JsonValidatorRejection {
    /// The status and body of the response: the transport's own for a parse
    /// failure, a bad request listing every violation otherwise.
    pub fn into_response(self) -> (r: (u16, String))
        ensures
            match self {
                JsonValidatorRejection::JsonAxumRejection(p) => r.0 == p.status && r.1@ == p.body@,
                JsonValidatorRejection::ValidationRejection(m) => r.0 == BAD_REQUEST && r.1@
                    == lines_of(m@),
            },
    {
        match self {
            JsonValidatorRejection::JsonAxumRejection(p) => (p.status, p.body),
            JsonValidatorRejection::ValidationRejection(m) => (BAD_REQUEST, m.to_text()),
        }
    }
}

/// A structured body that passed every field rule.
pub struct ValidJson<T>(pub T);

impl<T: Validate> ValidJson<T> {
    /// Hands a parsed body on if it breaks no rule; otherwise reports the
    /// parse failure, or every violation.
    pub fn from_parsed(parsed: Result<T, ParseRejection>) -> (r: Result<
        ValidJson<T>,
        JsonValidatorRejection,
    >)
        ensures
            match parsed {
                Err(p) => r matches Err(JsonValidatorRejection::JsonAxumRejection(q)) && q.status
                    == p.status && q.body@ == p.body@,
                Ok(v) => if v.violations().len() == 0 {
                    r matches Ok(j) && j.0 == v
                } else {
                    r matches Err(JsonValidatorRejection::ValidationRejection(m)) && m@ == aggregate(
                        v.violations(),
                    )
                },
            },
    {
        match parsed {
            Err(p) => Err(JsonValidatorRejection::JsonAxumRejection(p)),
            Ok(v) => match v.validate() {
                Ok(()) => Ok(ValidJson(v)),
                Err(m) => Err(JsonValidatorRejection::ValidationRejection(m)),
            },
        }
    }
}

} // verus!
