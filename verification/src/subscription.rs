use vstd::prelude::*;

verus! {

/// A stored subscription.
#[derive(Debug)]
pub struct Subscription {
    pub file_name: String,
    pub url: Option<String>,
    pub protocol: Option<String>,
    pub status: Option<String>,
    pub source: Option<String>,
    pub timestamp: Option<String>,
    pub last_updated: Option<String>,
    pub update_count: Option<i32>,
    pub fail_count: Option<i32>,
    pub last_error: Option<String>,
    pub last_attempt: Option<String>,
    pub loaded_at: Option<String>,
    pub singbox_cache: Option<String>,
    pub generated_from: Option<String>,
    pub last_generated: Option<String>,
    pub last_processed: Option<String>,
    pub is_cache: bool,
}

/// The metadata fields of a subscription that a request gives; each one absent when
/// the request does not give it, or gives it with a value of another kind.
#[derive(Debug)]
pub struct SubscriptionPatch {
    pub url: Option<String>,
    pub protocol: Option<String>,
    pub status: Option<String>,
    pub source: Option<String>,
    pub timestamp: Option<String>,
    pub last_updated: Option<String>,
    pub update_count: Option<i64>,
    pub fail_count: Option<i64>,
    pub last_error: Option<String>,
    pub last_attempt: Option<String>,
    pub loaded_at: Option<String>,
    pub singbox_cache: Option<String>,
    pub generated_from: Option<String>,
    pub last_generated: Option<String>,
    pub last_processed: Option<String>,
    pub is_cache: Option<bool>,
}

/// The patch that marks a profile complete: its status `active`, nothing else.
pub fn completion_patch() -> (r: SubscriptionPatch)
    ensures
        r.status matches Some(s) && s@ == "active"@,
        r.url is None,
        r.protocol is None,
        r.source is None,
        r.timestamp is None,
        r.last_updated is None,
        r.update_count is None,
        r.fail_count is None,
        r.last_error is None,
        r.last_attempt is None,
        r.loaded_at is None,
        r.singbox_cache is None,
        r.generated_from is None,
        r.last_generated is None,
        r.last_processed is None,
        r.is_cache is None,
{
    SubscriptionPatch {
        url: None,
        protocol: None,
        status: Some("active".to_owned()),
        source: None,
        timestamp: None,
        last_updated: None,
        update_count: None,
        fail_count: None,
        last_error: None,
        last_attempt: None,
        loaded_at: None,
        singbox_cache: None,
        generated_from: None,
        last_generated: None,
        last_processed: None,
        is_cache: None,
    }
}

/// A parameter of an SQL statement.
#[derive(Debug)]
pub enum SqlValue {
    Text(String),
    Integer(i64),
    Null,
}

/// The parameter of an optional text.
pub open spec fn text_param(o: Option<String>) -> SqlValue {
    match o {
        Some(s) => SqlValue::Text(s),
        None => SqlValue::Null,
    }
}

/// The parameter of an optional text, or of `default` when there is none.
pub open spec fn text_param_or(o: Option<String>, default: Seq<char>, r: SqlValue) -> bool {
    match o {
        Some(s) => r == SqlValue::Text(s),
        None => r matches SqlValue::Text(d) && d@ == default,
    }
}

fn text_value(o: &Option<String>) -> (r: SqlValue)
    ensures
        r == text_param(*o),
{
    match o {
        Some(s) => SqlValue::Text(s.clone()),
        None => SqlValue::Null,
    }
}

fn text_value_or(o: &Option<String>, default: &str) -> (r: SqlValue)
    ensures
        text_param_or(*o, default@, r),
{
    match o {
        Some(s) => SqlValue::Text(s.clone()),
        None => SqlValue::Text(default.to_owned()),
    }
}

/// The flag as SQL stores it: 1 or 0.
pub open spec fn flag_param(b: bool) -> SqlValue {
    SqlValue::Integer(if b { 1 } else { 0 })
}

/// The text of the statement that adds a subscription or replaces the one of the same
/// file name: seventeen columns bound in order, the file name deciding a conflict, and
/// `updated_at` set to the time of the write.
pub open spec fn upsert_statement() -> Seq<char> {
    "INSERT INTO subscriptions (
                file_name, url, protocol, status, source,
                timestamp, last_updated, update_count, fail_count,
                last_error, last_attempt, loaded_at, singbox_cache,
                generated_from, last_generated, last_processed, is_cache
            ) VALUES (?, ?, ?, ?, ?, ?, ?, ?, ?, ?, ?, ?, ?, ?, ?, ?, ?)
            ON CONFLICT(file_name) DO UPDATE SET
                url = excluded.url,
                protocol = excluded.protocol,
                status = excluded.status,
                source = excluded.source,
                timestamp = excluded.timestamp,
                last_updated = excluded.last_updated,
                update_count = excluded.update_count,
                fail_count = excluded.fail_count,
                last_error = excluded.last_error,
                last_attempt = excluded.last_attempt,
                loaded_at = excluded.loaded_at,
                singbox_cache = excluded.singbox_cache,
                generated_from = excluded.generated_from,
                last_generated = excluded.last_generated,
                last_processed = excluded.last_processed,
                is_cache = excluded.is_cache,
                updated_at = datetime('now')"@
}

/// The statement that adds a subscription, or replaces the one of the same file name.
pub fn upsert_sql() -> (r: &'static str)
    ensures
        r@ == upsert_statement(),
{
    "INSERT INTO subscriptions (
                file_name, url, protocol, status, source,
                timestamp, last_updated, update_count, fail_count,
                last_error, last_attempt, loaded_at, singbox_cache,
                generated_from, last_generated, last_processed, is_cache
            ) VALUES (?, ?, ?, ?, ?, ?, ?, ?, ?, ?, ?, ?, ?, ?, ?, ?, ?)
            ON CONFLICT(file_name) DO UPDATE SET
                url = excluded.url,
                protocol = excluded.protocol,
                status = excluded.status,
                source = excluded.source,
                timestamp = excluded.timestamp,
                last_updated = excluded.last_updated,
                update_count = excluded.update_count,
                fail_count = excluded.fail_count,
                last_error = excluded.last_error,
                last_attempt = excluded.last_attempt,
                loaded_at = excluded.loaded_at,
                singbox_cache = excluded.singbox_cache,
                generated_from = excluded.generated_from,
                last_generated = excluded.last_generated,
                last_processed = excluded.last_processed,
                is_cache = excluded.is_cache,
                updated_at = datetime('now')"
}

/// The parameters of `upsert_sql` for a subscription: the metadata as given, protocol
/// `singbox`, status `active`, no updates or failures and no cache when not given.
pub fn upsert_params(file_name: &str, m: &SubscriptionPatch) -> (r: Vec<SqlValue>)
    ensures
        r@.len() == 17,
        r@[0] matches SqlValue::Text(f) && f@ == file_name@,
        r@[1] == text_param(m.url),
        text_param_or(m.protocol, "singbox"@, r@[2]),
        text_param_or(m.status, "active"@, r@[3]),
        r@[4] == text_param(m.source),
        r@[5] == text_param(m.timestamp),
        r@[6] == text_param(m.last_updated),
        r@[7] == SqlValue::Integer(
            match m.update_count {
                Some(n) => n,
                None => 0,
            },
        ),
        r@[8] == SqlValue::Integer(
            match m.fail_count {
                Some(n) => n,
                None => 0,
            },
        ),
        r@[9] == text_param(m.last_error),
        r@[10] == text_param(m.last_attempt),
        r@[11] == text_param(m.loaded_at),
        r@[12] == text_param(m.singbox_cache),
        r@[13] == text_param(m.generated_from),
        r@[14] == text_param(m.last_generated),
        r@[15] == text_param(m.last_processed),
        r@[16] == flag_param(
            match m.is_cache {
                Some(b) => b,
                None => false,
            },
        ),
{
    let mut r: Vec<SqlValue> = Vec::new();
    r.push(SqlValue::Text(file_name.to_owned()));
    r.push(text_value(&m.url));
    r.push(text_value_or(&m.protocol, "singbox"));
    r.push(text_value_or(&m.status, "active"));
    r.push(text_value(&m.source));
    r.push(text_value(&m.timestamp));
    r.push(text_value(&m.last_updated));
    r.push(
        SqlValue::Integer(
            match m.update_count {
                Some(n) => n,
                None => 0,
            },
        ),
    );
    r.push(
        SqlValue::Integer(
            match m.fail_count {
                Some(n) => n,
                None => 0,
            },
        ),
    );
    r.push(text_value(&m.last_error));
    r.push(text_value(&m.last_attempt));
    r.push(text_value(&m.loaded_at));
    r.push(text_value(&m.singbox_cache));
    r.push(text_value(&m.generated_from));
    r.push(text_value(&m.last_generated));
    r.push(text_value(&m.last_processed));
    let is_cache = match m.is_cache {
        Some(b) => b,
        None => false,
    };
    r.push(SqlValue::Integer(if is_cache { 1 } else { 0 }));
    r
}

/// The assignment of an optional field that the patch holds.
pub open spec fn clause_if<T>(o: Option<T>, clause: Seq<char>) -> Seq<Seq<char>> {
    match o {
        Some(_) => seq![clause],
        None => seq![],
    }
}

/// The parameter of an optional text field that the patch holds.
pub open spec fn text_if(o: Option<String>) -> Seq<SqlValue> {
    match o {
        Some(s) => seq![SqlValue::Text(s)],
        None => seq![],
    }
}

/// The parameter of an optional integer field that the patch holds.
pub open spec fn int_if(o: Option<i64>) -> Seq<SqlValue> {
    match o {
        Some(n) => seq![SqlValue::Integer(n)],
        None => seq![],
    }
}

/// The parameter of an optional flag that the patch holds.
pub open spec fn flag_if(o: Option<bool>) -> Seq<SqlValue> {
    match o {
        Some(b) => seq![flag_param(b)],
        None => seq![],
    }
}

/// The assignments of an update: one for every field that the patch holds, in the
/// table's column order.
pub open spec fn patch_clauses(m: SubscriptionPatch) -> Seq<Seq<char>> {
    clause_if(m.url, "url = ?"@) + clause_if(m.protocol, "protocol = ?"@) + clause_if(
        m.status,
        "status = ?"@,
    ) + clause_if(m.source, "source = ?"@) + clause_if(m.timestamp, "timestamp = ?"@)
        + clause_if(m.last_updated, "last_updated = ?"@) + clause_if(
        m.update_count,
        "update_count = ?"@,
    ) + clause_if(m.fail_count, "fail_count = ?"@) + clause_if(
        m.last_error,
        "last_error = ?"@,
    ) + clause_if(m.last_attempt, "last_attempt = ?"@) + clause_if(
        m.loaded_at,
        "loaded_at = ?"@,
    ) + clause_if(m.singbox_cache, "singbox_cache = ?"@) + clause_if(
        m.generated_from,
        "generated_from = ?"@,
    ) + clause_if(m.last_generated, "last_generated = ?"@) + clause_if(
        m.last_processed,
        "last_processed = ?"@,
    ) + clause_if(m.is_cache, "is_cache = ?"@)
}

/// The parameters of an update, in the order of its assignments.
#[verifier::opaque]
pub open spec fn patch_values(m: SubscriptionPatch) -> Seq<SqlValue> {
    text_if(m.url) + text_if(m.protocol) + text_if(m.status) + text_if(m.source) + text_if(
        m.timestamp,
    ) + text_if(m.last_updated) + int_if(m.update_count) + int_if(m.fail_count) + text_if(
        m.last_error,
    ) + text_if(m.last_attempt) + text_if(m.loaded_at) + text_if(m.singbox_cache) + text_if(
        m.generated_from,
    ) + text_if(m.last_generated) + text_if(m.last_processed) + flag_if(m.is_cache)
}

/// A field of a subscription that an update can set.
pub enum PatchField {
    Url,
    Protocol,
    Status,
    Source,
    Timestamp,
    LastUpdated,
    UpdateCount,
    FailCount,
    LastError,
    LastAttempt,
    LoadedAt,
    SingboxCache,
    GeneratedFrom,
    LastGenerated,
    LastProcessed,
    IsCache,
}

/// The assignment that sets a field's column.
pub open spec fn column_assignment(f: PatchField) -> Seq<char> {
    match f {
        PatchField::Url => "url = ?"@,
        PatchField::Protocol => "protocol = ?"@,
        PatchField::Status => "status = ?"@,
        PatchField::Source => "source = ?"@,
        PatchField::Timestamp => "timestamp = ?"@,
        PatchField::LastUpdated => "last_updated = ?"@,
        PatchField::UpdateCount => "update_count = ?"@,
        PatchField::FailCount => "fail_count = ?"@,
        PatchField::LastError => "last_error = ?"@,
        PatchField::LastAttempt => "last_attempt = ?"@,
        PatchField::LoadedAt => "loaded_at = ?"@,
        PatchField::SingboxCache => "singbox_cache = ?"@,
        PatchField::GeneratedFrom => "generated_from = ?"@,
        PatchField::LastGenerated => "last_generated = ?"@,
        PatchField::LastProcessed => "last_processed = ?"@,
        PatchField::IsCache => "is_cache = ?"@,
    }
}

/// The parameter that a patch gives a field, if it holds the field: its text, its
/// number, or 1 or 0 for a flag.
pub open spec fn field_parameter(m: SubscriptionPatch, f: PatchField) -> Option<SqlValue> {
    match f {
        PatchField::Url => match m.url { Some(s) => Some(SqlValue::Text(s)), None => None },
        PatchField::Protocol => match m.protocol { Some(s) => Some(SqlValue::Text(s)), None => None },
        PatchField::Status => match m.status { Some(s) => Some(SqlValue::Text(s)), None => None },
        PatchField::Source => match m.source { Some(s) => Some(SqlValue::Text(s)), None => None },
        PatchField::Timestamp => match m.timestamp { Some(s) => Some(SqlValue::Text(s)), None => None },
        PatchField::LastUpdated => match m.last_updated { Some(s) => Some(SqlValue::Text(s)), None => None },
        PatchField::UpdateCount => match m.update_count { Some(n) => Some(SqlValue::Integer(n)), None => None },
        PatchField::FailCount => match m.fail_count { Some(n) => Some(SqlValue::Integer(n)), None => None },
        PatchField::LastError => match m.last_error { Some(s) => Some(SqlValue::Text(s)), None => None },
        PatchField::LastAttempt => match m.last_attempt { Some(s) => Some(SqlValue::Text(s)), None => None },
        PatchField::LoadedAt => match m.loaded_at { Some(s) => Some(SqlValue::Text(s)), None => None },
        PatchField::SingboxCache => match m.singbox_cache { Some(s) => Some(SqlValue::Text(s)), None => None },
        PatchField::GeneratedFrom => match m.generated_from { Some(s) => Some(SqlValue::Text(s)), None => None },
        PatchField::LastGenerated => match m.last_generated { Some(s) => Some(SqlValue::Text(s)), None => None },
        PatchField::LastProcessed => match m.last_processed { Some(s) => Some(SqlValue::Text(s)), None => None },
        PatchField::IsCache => match m.is_cache { Some(b) => Some(SqlValue::Integer(if b { 1 } else { 0 })), None => None },
    }
}

/// The assignments `c` and parameters `v` set the fields `ws`, in order, of patch `m`:
/// each parameter is the value of the field that its assignment sets, each field is
/// one of `fs`, and every field of `fs` that the patch holds is among them.
#[verifier::opaque]
spec fn binds_fields(
    m: SubscriptionPatch,
    c: Seq<Seq<char>>,
    v: Seq<SqlValue>,
    ws: Seq<PatchField>,
    fs: Set<PatchField>,
) -> bool {
    &&& c.len() == v.len()
    &&& ws.len() == c.len()
    &&& forall|i: int|
        0 <= i < c.len() ==> fs.contains(#[trigger] ws[i]) && column_assignment(ws[i]) == c[i]
            && field_parameter(m, ws[i]) == Some(v[i])
    &&& forall|f: PatchField| #[trigger] fs.contains(f) && field_parameter(m, f) is Some ==> ws.contains(f)
}

proof fn lemma_binds_one(m: SubscriptionPatch, f: PatchField, c: Seq<Seq<char>>, v: Seq<SqlValue>) -> (ws: Seq<PatchField>)
    requires
        field_parameter(m, f) matches Some(x) ==> c == seq![column_assignment(f)] && v == seq![x],
        field_parameter(m, f) is None ==> c == Seq::<Seq<char>>::empty() && v == Seq::<SqlValue>::empty(),
    ensures
        binds_fields(m, c, v, ws, set![f]),
{
    reveal(binds_fields);
    if field_parameter(m, f) is Some {
        let ws = seq![f];
        assert(ws[0] == f);
        ws
    } else {
        Seq::<PatchField>::empty()
    }
}

proof fn lemma_binds_concat(
    m: SubscriptionPatch,
    c1: Seq<Seq<char>>,
    v1: Seq<SqlValue>,
    w1: Seq<PatchField>,
    s1: Set<PatchField>,
    c2: Seq<Seq<char>>,
    v2: Seq<SqlValue>,
    w2: Seq<PatchField>,
    s2: Set<PatchField>,
)
    requires
        binds_fields(m, c1, v1, w1, s1),
        binds_fields(m, c2, v2, w2, s2),
    ensures
        binds_fields(m, c1 + c2, v1 + v2, w1 + w2, s1 + s2),
{
    reveal(binds_fields);
    let c = c1 + c2;
    let v = v1 + v2;
    let w = w1 + w2;
    assert forall|i: int| 0 <= i < c.len() implies (s1 + s2).contains(#[trigger] w[i])
        && column_assignment(w[i]) == c[i] && field_parameter(m, w[i]) == Some(v[i]) by {
        if i < c1.len() {
            assert(w[i] == w1[i]);
        } else {
            assert(w[i] == w2[i - c1.len()]);
        }
    }
    assert forall|f: PatchField| #[trigger] (s1 + s2).contains(f) && field_parameter(m, f) is Some implies w.contains(f) by {
        if s1.contains(f) {
            let i = choose|i: int| 0 <= i < w1.len() && w1[i] == f;
            assert(w[i] == f);
        } else {
            let j = choose|j: int| 0 <= j < w2.len() && w2[j] == f;
            assert(w[w1.len() + j] == f);
        }
    }
}

/// `parts` joined by `sep`.
pub open spec fn join(parts: Seq<Seq<char>>, sep: Seq<char>) -> Seq<char>
    decreases parts.len(),
{
    if parts.len() == 0 {
        seq![]
    } else if parts.len() == 1 {
        parts[0]
    } else {
        join(parts.drop_last(), sep) + sep + parts.last()
    }
}

/// The statement that sets the given fields of a subscription and its update time.
pub open spec fn update_sql_of(m: SubscriptionPatch) -> Seq<char> {
    "UPDATE subscriptions SET "@ + join(
        patch_clauses(m).push("updated_at = datetime('now')"@),
        ", "@,
    ) + " WHERE file_name = ?"@
}

/// An update statement and its parameters.
#[derive(Debug)]
pub struct UpdateStatement {
    pub sql: String,
    pub params: Vec<SqlValue>,
}

/// The views of static strings.
pub open spec fn str_views(v: Seq<&'static str>) -> Seq<Seq<char>> {
    v.map_values(|c: &'static str| c@)
}

/// Pushes the assignment and parameter of an optional text field.
fn push_text(
    clauses: &mut Vec<&'static str>,
    values: &mut Vec<SqlValue>,
    o: &Option<String>,
    clause: &'static str,
)
    ensures
        str_views(final(clauses)@) == str_views(old(clauses)@) + clause_if(*o, clause@),
        final(values)@ == old(values)@ + text_if(*o),
{
    match o {
        Some(s) => {
            clauses.push(clause);
            values.push(SqlValue::Text(s.clone()));
        },
        None => {},
    }
    assert(str_views(clauses@) =~= str_views(old(clauses)@) + clause_if(*o, clause@));
    assert(values@ =~= old(values)@ + text_if(*o));
}

/// Pushes the assignment and parameter of an optional integer field.
fn push_int(
    clauses: &mut Vec<&'static str>,
    values: &mut Vec<SqlValue>,
    o: Option<i64>,
    clause: &'static str,
)
    ensures
        str_views(final(clauses)@) == str_views(old(clauses)@) + clause_if(o, clause@),
        final(values)@ == old(values)@ + int_if(o),
{
    match o {
        Some(n) => {
            clauses.push(clause);
            values.push(SqlValue::Integer(n));
        },
        None => {},
    }
    assert(str_views(clauses@) =~= str_views(old(clauses)@) + clause_if(o, clause@));
    assert(values@ =~= old(values)@ + int_if(o));
}

/// The assignments and parameters of the fields that the patch holds.
#[verifier::spinoff_prover]
fn patch_assignments(m: &SubscriptionPatch) -> (r: (Vec<&'static str>, Vec<SqlValue>))
    ensures
        str_views(r.0@) == patch_clauses(*m),
        r.1@ == patch_values(*m),
{
    let mut clauses: Vec<&'static str> = Vec::new();
    let mut values: Vec<SqlValue> = Vec::new();
    assert(str_views(clauses@) =~= Seq::<Seq<char>>::empty());
    push_text(&mut clauses, &mut values, &m.url, "url = ?");
    push_text(&mut clauses, &mut values, &m.protocol, "protocol = ?");
    push_text(&mut clauses, &mut values, &m.status, "status = ?");
    push_text(&mut clauses, &mut values, &m.source, "source = ?");
    push_text(&mut clauses, &mut values, &m.timestamp, "timestamp = ?");
    push_text(&mut clauses, &mut values, &m.last_updated, "last_updated = ?");
    push_int(&mut clauses, &mut values, m.update_count, "update_count = ?");
    push_int(&mut clauses, &mut values, m.fail_count, "fail_count = ?");
    push_text(&mut clauses, &mut values, &m.last_error, "last_error = ?");
    push_text(&mut clauses, &mut values, &m.last_attempt, "last_attempt = ?");
    push_text(&mut clauses, &mut values, &m.loaded_at, "loaded_at = ?");
    push_text(&mut clauses, &mut values, &m.singbox_cache, "singbox_cache = ?");
    push_text(&mut clauses, &mut values, &m.generated_from, "generated_from = ?");
    push_text(&mut clauses, &mut values, &m.last_generated, "last_generated = ?");
    push_text(&mut clauses, &mut values, &m.last_processed, "last_processed = ?");
    let ghost c15 = str_views(clauses@);
    let ghost v15 = values@;
    match m.is_cache {
        Some(b) => {
            clauses.push("is_cache = ?");
            values.push(SqlValue::Integer(if b { 1 } else { 0 }));
        },
        None => {},
    }
    assert(str_views(clauses@) =~= c15 + clause_if(m.is_cache, "is_cache = ?"@));
    assert(values@ =~= v15 + flag_if(m.is_cache));
    assert(str_views(clauses@) =~= patch_clauses(*m)) by {
        reveal(patch_clauses);
    }
    assert(values@ =~= patch_values(*m)) by {
        reveal(patch_values);
    }
    (clauses, values)
}

/// The update of the fields that the patch holds, for the subscription `file_name`;
/// none when the patch holds no field.
pub fn update_statement(file_name: &str, m: &SubscriptionPatch) -> (r: Option<UpdateStatement>)
    ensures
        r.is_none() == (patch_clauses(*m).len() == 0),
        r matches Some(st) ==> {
            &&& st.sql@ == update_sql_of(*m)
            &&& st.params@.len() == patch_values(*m).len() + 1
            &&& st.params@.take(patch_values(*m).len() as int) == patch_values(*m)
            &&& st.params@.last() matches SqlValue::Text(f) && f@ == file_name@
        },
{
    let (mut clauses, mut values) = patch_assignments(m);
    if clauses.len() == 0 {
        return None;
    }
    clauses.push("updated_at = datetime('now')");
    let ghost all = str_views(clauses@);
    assert(all =~= patch_clauses(*m).push("updated_at = datetime('now')"@));
    let mut sql = "UPDATE subscriptions SET ".to_owned();
    sql.append(clauses[0]);
    let mut i: usize = 1;
    assert(all.take(1).drop_last() =~= Seq::<Seq<char>>::empty());
    assert(join(all.take(1), ", "@) == all[0]);
    while i < clauses.len()
        invariant
            1 <= i <= clauses@.len(),
            all == str_views(clauses@),
            sql@ == "UPDATE subscriptions SET "@ + join(all.take(i as int), ", "@),
        decreases clauses.len() - i,
    {
        sql.append(", ");
        sql.append(clauses[i]);
        assert(all.take(i + 1).drop_last() =~= all.take(i as int));
        assert(sql@ =~= "UPDATE subscriptions SET "@ + join(all.take(i + 1), ", "@));
        i += 1;
    }
    assert(all.take(i as int) =~= all);
    sql.append(" WHERE file_name = ?");
    let ghost vals = values@;
    values.push(SqlValue::Text(file_name.to_owned()));
    assert(values@.take(vals.len() as int) =~= vals);
    Some(UpdateStatement { sql, params: values })
}


/// The position of the subscription named `name` in `acc`, or -1.
pub open spec fn name_index(acc: Seq<Subscription>, name: Seq<char>) -> int
    decreases acc.len(),
{
    if acc.len() == 0 {
        -1
    } else if acc.last().file_name@ == name {
        acc.len() - 1
    } else {
        name_index(acc.drop_last(), name)
    }
}

/// `acc` with `s` put under its file name: replacing the one of that name, or appended.
pub open spec fn keyed_insert(acc: Seq<Subscription>, s: Subscription) -> Seq<Subscription> {
    let i = name_index(acc, s.file_name@);
    if i >= 0 {
        acc.update(i, s)
    } else {
        acc.push(s)
    }
}

/// The subscriptions keyed by file name that the rows that were read make, in the
/// order their names first appear; a later row of a name replaces an earlier one.
pub open spec fn collected(rows: Seq<Option<Subscription>>) -> Seq<Subscription>
    decreases rows.len(),
{
    if rows.len() == 0 {
        seq![]
    } else {
        let acc = collected(rows.drop_last());
        match rows.last() {
            Some(s) => keyed_insert(acc, s),
            None => acc,
        }
    }
}

/// `name_index` finds the last entry of the name, and nothing after it.
proof fn lemma_name_index(acc: Seq<Subscription>, name: Seq<char>)
    ensures
        -1 <= name_index(acc, name) < acc.len(),
        name_index(acc, name) >= 0 ==> acc[name_index(acc, name)].file_name@ == name,
        forall|j: int|
            name_index(acc, name) < j < acc.len() ==> #[trigger] acc[j].file_name@ != name,
    decreases acc.len(),
{
    if acc.len() > 0 && acc.last().file_name@ != name {
        lemma_name_index(acc.drop_last(), name);
        assert forall|j: int| name_index(acc, name) < j < acc.len() implies #[trigger] acc[j].file_name@
            != name by {
            if j < acc.len() - 1 {
                assert(acc.drop_last()[j] == acc[j]);
            }
        }
    }
}

/// The position of the subscription named `name`.
fn find_name(acc: &Vec<Subscription>, name: &String) -> (r: Option<usize>)
    ensures
        match r {
            Some(i) => i < acc@.len() && i == name_index(acc@, name@),
            None => name_index(acc@, name@) < 0,
        },
{
    let mut j: usize = acc.len();
    while j > 0
        invariant
            j <= acc@.len(),
            forall|k: int| j <= k < acc@.len() ==> #[trigger] acc@[k].file_name@ != name@,
        decreases j,
    {
        if acc[j - 1].file_name == *name {
            proof {
                lemma_name_index(acc@, name@);
                let n = name_index(acc@, name@);
                if n >= 0 && n != j - 1 {
                    assert(acc@[n].file_name@ == name@);
                }
            }
            return Some(j - 1);
        }
        j -= 1;
    }
    proof {
        lemma_name_index(acc@, name@);
        let n = name_index(acc@, name@);
        if n >= 0 {
            assert(acc@[n].file_name@ == name@);
        }
    }
    None
}

/// The subscriptions that the rows make, keyed by file name (rows that could not be
/// read are skipped; a later row of a name replaces an earlier one).
pub fn collect_subscriptions(rows: Vec<Option<Subscription>>) -> (r: Vec<Subscription>)
    ensures
        r@ == collected(rows@),
{
    let ghost all = rows@;
    let mut out: Vec<Subscription> = Vec::new();
    assert(all.take(0) =~= Seq::<Option<Subscription>>::empty());
    for x in it: rows.into_iter()
        invariant
            it.seq() == all,
            out@ == collected(all.take(it.index() as int)),
    {
        let ghost d: int = it.index() as int;
        assert(all.take(d + 1).drop_last() =~= all.take(d));
        match x {
            Some(s) => {
                match find_name(&out, &s.file_name) {
                    Some(k) => {
                        out.set(k, s);
                    },
                    None => {
                        out.push(s);
                    },
                }
            },
            None => {},
        }
    }
    assert(all.take(all.len() as int) =~= all);
    out
}

/// Whether a stored flag is set: any value but 0.
pub fn sql_flag(v: i32) -> (r: bool)
    ensures
        r == (v != 0),
{
    v != 0
}

/// The store of subscriptions: a database file.
pub struct SubscriptionManager {
    db_path: String,
}

impl SubscriptionManager {
    /// The path of the database file.
    pub closed spec fn path(&self) -> Seq<char> {
        self.db_path@
    }

    /// A store kept in the database file `db_path`.
    pub fn new(db_path: String) -> (r: SubscriptionManager)
        ensures
            r.path() == db_path@,
    {
        SubscriptionManager { db_path }
    }

    /// The path of the database file.
    pub fn db_path(&self) -> (r: &str)
        ensures
            r@ == self.path(),
    {
        self.db_path.as_str()
    }
}


/// Every assignment of an update has its parameter: as many of one as of the other.
pub proof fn law_update_parameters_match(m: SubscriptionPatch)
    ensures
        patch_clauses(m).len() == patch_values(m).len(),
{
    reveal(patch_clauses);
    reveal(patch_values);
}

/// An update binds each field to its own value: every parameter is the value of the
/// field that the assignment at its position sets, and every field that the patch
/// holds has an assignment, with that field's value at its position.
#[verifier::rlimit(50)]
pub proof fn law_update_binds_each_field(m: SubscriptionPatch)
    ensures
        patch_clauses(m).len() == patch_values(m).len(),
        forall|i: int|
            #![trigger patch_clauses(m)[i]]
            0 <= i < patch_clauses(m).len() ==> exists|f: PatchField| #[trigger] column_assignment(f)
                == patch_clauses(m)[i] && field_parameter(m, f) == Some(patch_values(m)[i]),
        forall|f: PatchField|
            #[trigger] field_parameter(m, f) is Some ==> exists|i: int|
                0 <= i < patch_clauses(m).len() && #[trigger] patch_clauses(m)[i] == column_assignment(f)
                    && field_parameter(m, f) == Some(patch_values(m)[i]),
{
    reveal(patch_values);
    let mut w = lemma_binds_one(m, PatchField::Url, clause_if(m.url, "url = ?"@), text_if(m.url));
    let mut c = clause_if(m.url, "url = ?"@);
    let mut v = text_if(m.url);
    let mut s = set![PatchField::Url];
    let w2 = lemma_binds_one(m, PatchField::Protocol, clause_if(m.protocol, "protocol = ?"@), text_if(m.protocol));
    lemma_binds_concat(m, c, v, w, s, clause_if(m.protocol, "protocol = ?"@), text_if(m.protocol), w2, set![PatchField::Protocol]);
    w = w + w2;
    c = c + clause_if(m.protocol, "protocol = ?"@);
    v = v + text_if(m.protocol);
    s = s + set![PatchField::Protocol];
    let w2 = lemma_binds_one(m, PatchField::Status, clause_if(m.status, "status = ?"@), text_if(m.status));
    lemma_binds_concat(m, c, v, w, s, clause_if(m.status, "status = ?"@), text_if(m.status), w2, set![PatchField::Status]);
    w = w + w2;
    c = c + clause_if(m.status, "status = ?"@);
    v = v + text_if(m.status);
    s = s + set![PatchField::Status];
    let w2 = lemma_binds_one(m, PatchField::Source, clause_if(m.source, "source = ?"@), text_if(m.source));
    lemma_binds_concat(m, c, v, w, s, clause_if(m.source, "source = ?"@), text_if(m.source), w2, set![PatchField::Source]);
    w = w + w2;
    c = c + clause_if(m.source, "source = ?"@);
    v = v + text_if(m.source);
    s = s + set![PatchField::Source];
    let w2 = lemma_binds_one(m, PatchField::Timestamp, clause_if(m.timestamp, "timestamp = ?"@), text_if(m.timestamp));
    lemma_binds_concat(m, c, v, w, s, clause_if(m.timestamp, "timestamp = ?"@), text_if(m.timestamp), w2, set![PatchField::Timestamp]);
    w = w + w2;
    c = c + clause_if(m.timestamp, "timestamp = ?"@);
    v = v + text_if(m.timestamp);
    s = s + set![PatchField::Timestamp];
    let w2 = lemma_binds_one(m, PatchField::LastUpdated, clause_if(m.last_updated, "last_updated = ?"@), text_if(m.last_updated));
    lemma_binds_concat(m, c, v, w, s, clause_if(m.last_updated, "last_updated = ?"@), text_if(m.last_updated), w2, set![PatchField::LastUpdated]);
    w = w + w2;
    c = c + clause_if(m.last_updated, "last_updated = ?"@);
    v = v + text_if(m.last_updated);
    s = s + set![PatchField::LastUpdated];
    let w2 = lemma_binds_one(m, PatchField::UpdateCount, clause_if(m.update_count, "update_count = ?"@), int_if(m.update_count));
    lemma_binds_concat(m, c, v, w, s, clause_if(m.update_count, "update_count = ?"@), int_if(m.update_count), w2, set![PatchField::UpdateCount]);
    w = w + w2;
    c = c + clause_if(m.update_count, "update_count = ?"@);
    v = v + int_if(m.update_count);
    s = s + set![PatchField::UpdateCount];
    let w2 = lemma_binds_one(m, PatchField::FailCount, clause_if(m.fail_count, "fail_count = ?"@), int_if(m.fail_count));
    lemma_binds_concat(m, c, v, w, s, clause_if(m.fail_count, "fail_count = ?"@), int_if(m.fail_count), w2, set![PatchField::FailCount]);
    w = w + w2;
    c = c + clause_if(m.fail_count, "fail_count = ?"@);
    v = v + int_if(m.fail_count);
    s = s + set![PatchField::FailCount];
    let w2 = lemma_binds_one(m, PatchField::LastError, clause_if(m.last_error, "last_error = ?"@), text_if(m.last_error));
    lemma_binds_concat(m, c, v, w, s, clause_if(m.last_error, "last_error = ?"@), text_if(m.last_error), w2, set![PatchField::LastError]);
    w = w + w2;
    c = c + clause_if(m.last_error, "last_error = ?"@);
    v = v + text_if(m.last_error);
    s = s + set![PatchField::LastError];
    let w2 = lemma_binds_one(m, PatchField::LastAttempt, clause_if(m.last_attempt, "last_attempt = ?"@), text_if(m.last_attempt));
    lemma_binds_concat(m, c, v, w, s, clause_if(m.last_attempt, "last_attempt = ?"@), text_if(m.last_attempt), w2, set![PatchField::LastAttempt]);
    w = w + w2;
    c = c + clause_if(m.last_attempt, "last_attempt = ?"@);
    v = v + text_if(m.last_attempt);
    s = s + set![PatchField::LastAttempt];
    let w2 = lemma_binds_one(m, PatchField::LoadedAt, clause_if(m.loaded_at, "loaded_at = ?"@), text_if(m.loaded_at));
    lemma_binds_concat(m, c, v, w, s, clause_if(m.loaded_at, "loaded_at = ?"@), text_if(m.loaded_at), w2, set![PatchField::LoadedAt]);
    w = w + w2;
    c = c + clause_if(m.loaded_at, "loaded_at = ?"@);
    v = v + text_if(m.loaded_at);
    s = s + set![PatchField::LoadedAt];
    let w2 = lemma_binds_one(m, PatchField::SingboxCache, clause_if(m.singbox_cache, "singbox_cache = ?"@), text_if(m.singbox_cache));
    lemma_binds_concat(m, c, v, w, s, clause_if(m.singbox_cache, "singbox_cache = ?"@), text_if(m.singbox_cache), w2, set![PatchField::SingboxCache]);
    w = w + w2;
    c = c + clause_if(m.singbox_cache, "singbox_cache = ?"@);
    v = v + text_if(m.singbox_cache);
    s = s + set![PatchField::SingboxCache];
    let w2 = lemma_binds_one(m, PatchField::GeneratedFrom, clause_if(m.generated_from, "generated_from = ?"@), text_if(m.generated_from));
    lemma_binds_concat(m, c, v, w, s, clause_if(m.generated_from, "generated_from = ?"@), text_if(m.generated_from), w2, set![PatchField::GeneratedFrom]);
    w = w + w2;
    c = c + clause_if(m.generated_from, "generated_from = ?"@);
    v = v + text_if(m.generated_from);
    s = s + set![PatchField::GeneratedFrom];
    let w2 = lemma_binds_one(m, PatchField::LastGenerated, clause_if(m.last_generated, "last_generated = ?"@), text_if(m.last_generated));
    lemma_binds_concat(m, c, v, w, s, clause_if(m.last_generated, "last_generated = ?"@), text_if(m.last_generated), w2, set![PatchField::LastGenerated]);
    w = w + w2;
    c = c + clause_if(m.last_generated, "last_generated = ?"@);
    v = v + text_if(m.last_generated);
    s = s + set![PatchField::LastGenerated];
    let w2 = lemma_binds_one(m, PatchField::LastProcessed, clause_if(m.last_processed, "last_processed = ?"@), text_if(m.last_processed));
    lemma_binds_concat(m, c, v, w, s, clause_if(m.last_processed, "last_processed = ?"@), text_if(m.last_processed), w2, set![PatchField::LastProcessed]);
    w = w + w2;
    c = c + clause_if(m.last_processed, "last_processed = ?"@);
    v = v + text_if(m.last_processed);
    s = s + set![PatchField::LastProcessed];
    let w2 = lemma_binds_one(m, PatchField::IsCache, clause_if(m.is_cache, "is_cache = ?"@), flag_if(m.is_cache));
    lemma_binds_concat(m, c, v, w, s, clause_if(m.is_cache, "is_cache = ?"@), flag_if(m.is_cache), w2, set![PatchField::IsCache]);
    w = w + w2;
    c = c + clause_if(m.is_cache, "is_cache = ?"@);
    v = v + flag_if(m.is_cache);
    s = s + set![PatchField::IsCache];
    assert(c == patch_clauses(m));
    assert(v == patch_values(m));
    reveal(binds_fields);
    assert forall|f: PatchField| #[trigger] field_parameter(m, f) is Some implies exists|i: int|
        0 <= i < patch_clauses(m).len() && #[trigger] patch_clauses(m)[i] == column_assignment(f)
            && field_parameter(m, f) == Some(patch_values(m)[i]) by {
        assert(s.contains(f));
        let i = choose|i: int| 0 <= i < w.len() && w[i] == f;
        assert(w[i] == f);
    }
    assert forall|i: int| #![trigger patch_clauses(m)[i]] 0 <= i < patch_clauses(m).len() implies exists|f: PatchField| #[trigger] column_assignment(f)
        == patch_clauses(m)[i] && field_parameter(m, f) == Some(patch_values(m)[i]) by {
        assert(w[i] == w[i]);
        assert(column_assignment(w[i]) == patch_clauses(m)[i]);
    }
}

/// The listed subscriptions have distinct file names, and the last row that was read
/// is among them.
pub proof fn law_collected_names_distinct(rows: Seq<Option<Subscription>>)
    ensures
        forall|i: int, j: int|
            0 <= i < j < collected(rows).len() ==> #[trigger] collected(rows)[i].file_name@
                != #[trigger] collected(rows)[j].file_name@,
        rows.len() > 0 && rows.last() is Some ==> collected(rows).contains(rows.last()->Some_0),
    decreases rows.len(),
{
    if rows.len() > 0 {
        let prev = rows.drop_last();
        law_collected_names_distinct(prev);
        let acc = collected(prev);
        match rows.last() {
            Some(s) => {
                lemma_name_index(acc, s.file_name@);
                let k = name_index(acc, s.file_name@);
                let out = collected(rows);
                if k >= 0 {
                    assert(out == acc.update(k, s));
                    assert(out[k] == s);
                    assert forall|i: int, j: int|
                        0 <= i < j < out.len() implies #[trigger] out[i].file_name@
                        != #[trigger] out[j].file_name@ by {
                        if i == k {
                            assert(acc[k].file_name@ == s.file_name@);
                            assert(acc[i].file_name@ != acc[j].file_name@);
                        } else if j == k {
                            assert(acc[k].file_name@ == s.file_name@);
                            assert(acc[i].file_name@ != acc[j].file_name@);
                        } else {
                            assert(acc[i].file_name@ != acc[j].file_name@);
                        }
                    }
                } else {
                    assert(out == acc.push(s));
                    assert(out[out.len() - 1] == s);
                    assert forall|i: int, j: int|
                        0 <= i < j < out.len() implies #[trigger] out[i].file_name@
                        != #[trigger] out[j].file_name@ by {
                        if j == out.len() - 1 {
                            assert(acc[i].file_name@ != s.file_name@);
                        } else {
                            assert(acc[i].file_name@ != acc[j].file_name@);
                        }
                    }
                }
            },
            None => {},
        }
    }
}

} // verus!
