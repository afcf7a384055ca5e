//! Rules of the `models` table: input validation, the statement an update runs,
//! the decision on deletion, and turning stored rows back into plaintext models.
//!
//! The queries themselves run elsewhere; these functions decide what they are
//! given and what their results mean.

use crate::crypto::fits_cipher;
use crate::crypto::decrypt_outcome;
use crate::crypto::is_sealed;
use crate::crypto::nonce_length_mismatch;
use crate::crypto::opened_text;
use crate::crypto::sealed_text;
use crate::crypto::Crypto;
use crate::crypto::NONCE_LEN;
use crate::error::AppError;
use crate::text::all_white_space;
use crate::text::contains_text;
use crate::text::decimal;
use crate::text::format_i64;
use crate::text::join;
use crate::text::join_strings;
use crate::text::lemma_contains_in_middle;
use crate::text::lemma_decimal_ends_in_digit;
use crate::text::lemma_join_contains;
use crate::text::trim;
use crate::text::trimmed;
use crate::text::views;
use vstd::prelude::*;
use vstd::string::*;

verus! {

pub const STATUS_ACTIVE: i64 = 1;

pub const STATUS_INACTIVE: i64 = 0;

/// A model provider connection. `api_key` is decrypted on read; the struct
/// never leaves the library with ciphertext inside.
#[derive(Debug)]
pub struct Model {
    pub id: i64,
    pub provider: String,
    pub url: String,
    pub api_key: String,
    pub status: i64,
    /// 1 = protected from deletion in the UI, 0 = deletable.
    pub locked: i64,
    pub created_at: String,
    pub updated_at: String,
}

/// A connection the user asks to create.
#[derive(Debug)]
pub struct NewModel {
    pub provider: String,
    pub url: String,
    pub api_key: String,
}

/// The fields an update may change; `None` leaves a field as it is.
#[derive(Debug)]
pub struct ModelUpdate {
    pub provider: Option<String>,
    pub url: Option<String>,
    pub api_key: Option<String>,
    pub status: Option<i64>,
    pub locked: Option<i64>,
}

/// The values an insert binds, in column order `provider, url, api_key`.
#[derive(Debug)]
pub struct ModelInsert {
    pub provider: String,
    pub url: String,
    pub api_key: String,
}

/// An update statement and the text parameters it binds before the row id.
#[derive(Debug)]
pub struct UpdatePlan {
    pub sql: String,
    pub params: Vec<String>,
}

/// What a delete request leads to once the row's lock flag has been read.
#[derive(Debug, PartialEq, Eq)]
pub enum DeleteStep {
    /// No such row: nothing is removed.
    Absent,
    /// The row may be removed.
    Remove,
}

/// The flag columns accept 0 and 1 only.
pub open spec fn is_flag(value: i64) -> bool {
    value == STATUS_ACTIVE || value == STATUS_INACTIVE
}

/// Message for a flag outside 0 and 1.
pub open spec fn flag_message(field: Seq<char>, value: i64) -> Seq<char> {
    "`"@ + field + "` must be 0 or 1, got "@ + decimal(value as int)
}

/// Message for a row that does not exist.
pub open spec fn not_found_message(id: i64) -> Seq<char> {
    "model "@ + decimal(id as int)
}

/// Message for a locked row that is not force-deleted.
pub open spec fn locked_message(id: i64) -> Seq<char> {
    "model "@ + decimal(id as int) + " is locked; unlock it first or pass force=true"@
}

/// Provider or url is empty once trimmed, that is, nothing but white space.
pub open spec fn lacks_identity(input: NewModel) -> bool {
    all_white_space(input.provider@) || all_white_space(input.url@)
}

/// `stored` is the sealed form of `plaintext` under `key` with some nonce.
pub open spec fn seals(key: Seq<u8>, stored: Seq<char>, plaintext: Seq<char>) -> bool {
    &&& exists|n: Seq<u8>| n.len() == NONCE_LEN && stored == sealed_text(key, n, plaintext)
    &&& opened_text(key, stored) == Ok::<Seq<char>, Seq<char>>(plaintext)
    &&& is_sealed(stored)
    &&& !nonce_length_mismatch(stored)
}

/// One item when `present`, none otherwise.
pub open spec fn item_if(present: bool, item: Seq<char>) -> Seq<Seq<char>> {
    if present {
        seq![item]
    } else {
        seq![]
    }
}

/// The `SET` assignments of an update, given the encrypted api key if any.
pub open spec fn update_assignments(patch: ModelUpdate, api_key: Option<Seq<char>>) -> Seq<Seq<char>> {
    item_if(patch.provider is Some, "provider = ?"@) + item_if(patch.url is Some, "url = ?"@)
        + item_if(api_key is Some, "api_key = ?"@) + flag_assignment("status = "@, patch.status)
        + flag_assignment("locked = "@, patch.locked) + seq!["updated_at = datetime('now')"@]
}

/// `column = value` for a flag the update sets, nothing otherwise.
pub open spec fn flag_assignment(lhs: Seq<char>, value: Option<i64>) -> Seq<Seq<char>> {
    match value {
        Some(v) => seq![lhs + decimal(v as int)],
        None => seq![],
    }
}

/// The trimmed text of a field the update sets, nothing otherwise.
pub open spec fn trimmed_param(value: Option<String>) -> Seq<Seq<char>> {
    match value {
        Some(v) => seq![trimmed(v@)],
        None => seq![],
    }
}

/// The text parameters of an update, in the order of their placeholders.
pub open spec fn update_params(patch: ModelUpdate, api_key: Option<Seq<char>>) -> Seq<Seq<char>> {
    trimmed_param(patch.provider) + trimmed_param(patch.url) + match api_key {
        Some(k) => seq![k],
        None => seq![],
    }
}

/// The statement of an update.
pub open spec fn update_sql(patch: ModelUpdate, api_key: Option<Seq<char>>) -> Seq<char> {
    "UPDATE models SET "@ + join(update_assignments(patch, api_key), ", "@)
        + " WHERE id = ? RETURNING *"@
}

/// The characters of an optional string.
pub open spec fn text_of(value: Option<String>) -> Option<Seq<char>> {
    match value {
        Some(v) => Some(v@),
        None => None,
    }
}

/// An optional flag is absent or 0 or 1.
pub open spec fn optional_flag(value: Option<i64>) -> bool {
    value matches Some(v) ==> is_flag(v)
}

/// Both flags of the update are absent or 0 or 1.
pub open spec fn flags_valid(patch: ModelUpdate) -> bool {
    optional_flag(patch.status) && optional_flag(patch.locked)
}

/// The update changes no column.
pub open spec fn changes_nothing(patch: ModelUpdate, api_key: Option<Seq<char>>) -> bool {
    &&& patch.provider is None
    &&& patch.url is None
    &&& api_key is None
    &&& patch.status is None
    &&& patch.locked is None
}

/// `plan` runs the update of `patch` with the given encrypted api key.
pub open spec fn plans(plan: UpdatePlan, patch: ModelUpdate, api_key: Option<Seq<char>>) -> bool {
    plan.sql@ == update_sql(patch, api_key) && views(plan.params@) == update_params(patch, api_key)
}

/// The two models agree on every column but the api key.
pub open spec fn same_but_api_key(a: Model, b: Model) -> bool {
    &&& a.id == b.id
    &&& a.provider@ == b.provider@
    &&& a.url@ == b.url@
    &&& a.status == b.status
    &&& a.locked == b.locked
    &&& a.created_at@ == b.created_at@
    &&& a.updated_at@ == b.updated_at@
}

/// The row's api key reads back without error or panic.
pub open spec fn reads_back(key: Seq<u8>, row: Model) -> bool {
    !nonce_length_mismatch(row.api_key@) && opened_text(key, row.api_key@) is Ok
}

/// `model` is `row` with its api key read back under `key`.
pub open spec fn decrypted_row(key: Seq<u8>, row: Model, model: Model) -> bool {
    same_but_api_key(model, row) && opened_text(key, row.api_key@) == Ok::<Seq<char>, Seq<char>>(
        model.api_key@,
    )
}

/// The assignment takes a bound parameter (it ends in a `?` placeholder).
pub open spec fn takes_parameter(assignment: Seq<char>) -> bool {
    assignment.len() > 0 && assignment.last() == '?'
}

/// The parameters of an update fill its placeholders one for one and in order: the
/// assignments that take a parameter are exactly the first `params.len()` ones.
pub proof fn law_update_parameters_match_placeholders(patch: ModelUpdate, api_key: Option<Seq<char>>)
    ensures
        forall|i: int|
            0 <= i < update_assignments(patch, api_key).len() ==> (takes_parameter(
                #[trigger] update_assignments(patch, api_key)[i],
            ) <==> i < update_params(patch, api_key).len()),
{
    reveal_strlit("provider = ?");
    reveal_strlit("url = ?");
    reveal_strlit("api_key = ?");
    reveal_strlit("status = ");
    reveal_strlit("locked = ");
    reveal_strlit("updated_at = datetime('now')");
    let bound = item_if(patch.provider is Some, "provider = ?"@) + item_if(
        patch.url is Some,
        "url = ?"@,
    ) + item_if(api_key is Some, "api_key = ?"@);
    let flags = flag_assignment("status = "@, patch.status) + flag_assignment(
        "locked = "@,
        patch.locked,
    );
    let all = update_assignments(patch, api_key);
    assert(all =~= bound + flags + seq!["updated_at = datetime('now')"@]);
    assert(bound.len() == update_params(patch, api_key).len());
    assert forall|i: int| 0 <= i < bound.len() implies takes_parameter(#[trigger] bound[i]) by {
        assert("provider = ?"@.last() == '?');
        assert("url = ?"@.last() == '?');
        assert("api_key = ?"@.last() == '?');
    }
    assert forall|i: int| 0 <= i < flags.len() implies !takes_parameter(#[trigger] flags[i]) by {
        if let Some(s) = patch.status {
            lemma_decimal_ends_in_digit(s as int);
            assert(("status = "@ + decimal(s as int)).last() == decimal(s as int).last());
        }
        if let Some(l) = patch.locked {
            lemma_decimal_ends_in_digit(l as int);
            assert(("locked = "@ + decimal(l as int)).last() == decimal(l as int).last());
        }
    }
    assert("updated_at = datetime('now')"@.last() == ')');
    assert forall|i: int| 0 <= i < all.len() implies (takes_parameter(#[trigger] all[i]) <==> i
        < bound.len()) by {
        if i < bound.len() {
            assert(all[i] == bound[i]);
        } else if i < bound.len() + flags.len() {
            assert(all[i] == flags[i - bound.len()]);
        } else {
            assert(all[i] == "updated_at = datetime('now')"@);
        }
    }
}

/// 1 when `b` holds, 0 otherwise.
pub open spec fn count_if(b: bool) -> int {
    if b {
        1
    } else {
        0
    }
}

/// What an update plans, over every patch: it changes nothing exactly when no field is
/// set; its statement assigns each field the patch sets (a flag with its value) and
/// `updated_at`; and it binds one text parameter for each of provider, url and api key
/// that is set.
pub proof fn law_update_assigns_what_it_sets(patch: ModelUpdate, api_key: Option<Seq<char>>)
    ensures
        changes_nothing(patch, api_key) <==> (patch.provider is None && patch.url is None
            && api_key is None && patch.status is None && patch.locked is None),
        patch.provider is Some ==> contains_text(update_sql(patch, api_key), "provider = ?"@),
        patch.url is Some ==> contains_text(update_sql(patch, api_key), "url = ?"@),
        api_key is Some ==> contains_text(update_sql(patch, api_key), "api_key = ?"@),
        patch.status is Some ==> contains_text(
            update_sql(patch, api_key),
            "status = "@ + decimal(patch.status.unwrap() as int),
        ),
        patch.locked is Some ==> contains_text(
            update_sql(patch, api_key),
            "locked = "@ + decimal(patch.locked.unwrap() as int),
        ),
        contains_text(update_sql(patch, api_key), "updated_at = datetime('now')"@),
        update_params(patch, api_key).len() == count_if(patch.provider is Some) + count_if(
            patch.url is Some,
        ) + count_if(api_key is Some),
{
    let p = count_if(patch.provider is Some);
    let u = count_if(patch.url is Some);
    let a = count_if(api_key is Some);
    let st = count_if(patch.status is Some);
    let lk = count_if(patch.locked is Some);
    let bound = item_if(patch.provider is Some, "provider = ?"@) + item_if(
        patch.url is Some,
        "url = ?"@,
    ) + item_if(api_key is Some, "api_key = ?"@);
    let flags = flag_assignment("status = "@, patch.status) + flag_assignment(
        "locked = "@,
        patch.locked,
    );
    let all = update_assignments(patch, api_key);
    assert(all =~= bound + flags + seq!["updated_at = datetime('now')"@]);
    assert(bound.len() == p + u + a);
    assert(flags.len() == st + lk);
    let sep = ", "@;
    let head = "UPDATE models SET "@;
    let tail = " WHERE id = ? RETURNING *"@;
    assert(update_sql(patch, api_key) == head + join(all, sep) + tail);
    if patch.provider is Some {
        assert(all[0] == "provider = ?"@);
        lemma_join_contains(all, sep, 0);
        lemma_contains_in_middle(head, join(all, sep), tail, "provider = ?"@);
    }
    if patch.url is Some {
        assert(all[p] == "url = ?"@);
        lemma_join_contains(all, sep, p);
        lemma_contains_in_middle(head, join(all, sep), tail, "url = ?"@);
    }
    if api_key is Some {
        assert(all[p + u] == "api_key = ?"@);
        lemma_join_contains(all, sep, p + u);
        lemma_contains_in_middle(head, join(all, sep), tail, "api_key = ?"@);
    }
    if patch.status is Some {
        let item = "status = "@ + decimal(patch.status.unwrap() as int);
        assert(all[p + u + a] == item);
        lemma_join_contains(all, sep, p + u + a);
        lemma_contains_in_middle(head, join(all, sep), tail, item);
    }
    if patch.locked is Some {
        let item = "locked = "@ + decimal(patch.locked.unwrap() as int);
        assert(all[p + u + a + st] == item);
        lemma_join_contains(all, sep, p + u + a + st);
        lemma_contains_in_middle(head, join(all, sep), tail, item);
    }
    assert(all[p + u + a + st + lk] == "updated_at = datetime('now')"@);
    lemma_join_contains(all, sep, p + u + a + st + lk);
    lemma_contains_in_middle(head, join(all, sep), tail, "updated_at = datetime('now')"@);
}

/// A row whose api key was sealed from `plaintext` reads back, and the model it turns
/// into carries `plaintext` again.
pub proof fn law_stored_key_reads_back(key: Seq<u8>, row: Model, plaintext: Seq<char>, model: Model)
    requires
        seals(key, row.api_key@, plaintext),
    ensures
        reads_back(key, row),
        decrypted_row(key, row, model) ==> model.api_key@ == plaintext,
{
}

fn literal(text: &str) -> (res: String)
    ensures
        res@ == text@,
{
    String::from_str(text)
}

/// Checks that a flag column value is 0 or 1.
pub fn flag(value: i64, field: &str) -> (res: Result<i64, AppError>)
    ensures
        is_flag(value) ==> res == Ok::<i64, AppError>(value),
        !is_flag(value) ==> (res matches Err(AppError::Validation(m)) && m@ == flag_message(
            field@,
            value,
        )),
        value == 0 || value == 1 ==> res == Ok::<i64, AppError>(value),
        res is Ok ==> value == 0 || value == 1,
{
    if value == STATUS_ACTIVE || value == STATUS_INACTIVE {
        Ok(value)
    } else {
        let mut msg = literal("`");
        msg.append(field);
        msg.append("` must be 0 or 1, got ");
        let shown = format_i64(value);
        msg.append(shown.as_str());
        Err(AppError::Validation(msg))
    }
}

/// The error for a row id that matches nothing.
pub fn not_found(id: i64) -> (res: AppError)
    ensures
        res matches AppError::NotFound(m) && m@ == not_found_message(id),
{
    let mut msg = literal("model ");
    let shown = format_i64(id);
    msg.append(shown.as_str());
    AppError::NotFound(msg)
}

/// The row a query returned, or the not-found error for `id`.
pub fn require_found(row: Option<Model>, id: i64) -> (res: Result<Model, AppError>)
    ensures
        row matches Some(m) ==> res == Ok::<Model, AppError>(m),
        row is None ==> (res matches Err(AppError::NotFound(m)) && m@ == not_found_message(id)),
{
    match row {
        Some(m) => Ok(m),
        None => Err(not_found(id)),
    }
}

/// Validates a new connection and prepares the values to insert: trimmed
/// provider and url, and the api key sealed under a fresh nonce.
pub fn prepare_create(crypto: &Crypto, input: &NewModel) -> (res: Result<ModelInsert, AppError>)
    ensures
        lacks_identity(*input) ==> (res matches Err(AppError::Validation(m)) && m@
            == "`provider` and `url` are required"@),
        !lacks_identity(*input) && input.api_key@.len() == 0 ==> (res matches Err(
            AppError::Validation(m),
        ) && m@ == "`api_key` is required"@),
        !lacks_identity(*input) && input.api_key@.len() != 0 ==> (res is Ok <==> fits_cipher(
            input.api_key@,
        )),
        !lacks_identity(*input) && input.api_key@.len() != 0 && !fits_cipher(input.api_key@) ==> (
        res matches Err(AppError::Crypto(m)) && m@ == "aead::Error"@),
        res matches Ok(row) ==> row.provider@ == trimmed(input.provider@) && row.url@ == trimmed(
            input.url@,
        ) && seals(crypto.key_bytes(), row.api_key@, input.api_key@),
        res matches Err(e) ==> e is Validation || e is Crypto,
        res matches Ok(row) ==> row.provider@.len() > 0 && row.url@.len() > 0
            && input.api_key@.len() > 0,
{
    let provider = trim(input.provider.as_str());
    let url = trim(input.url.as_str());
    if provider.as_str().is_empty() || url.as_str().is_empty() {
        return Err(AppError::Validation(literal("`provider` and `url` are required")));
    }
    if input.api_key.as_str().is_empty() {
        return Err(AppError::Validation(literal("`api_key` is required")));
    }
    let api_key = crypto.encrypt(input.api_key.as_str())?;
    Ok(ModelInsert { provider, url, api_key })
}

/// Builds the update statement for `patch`, given the already encrypted api key
/// (present exactly when the patch sets one).
pub fn build_update(patch: &ModelUpdate, api_key: Option<String>) -> (res: Result<UpdatePlan, AppError>)
    ensures
        changes_nothing(*patch, text_of(api_key)) ==> (res matches Err(
            AppError::Validation(m),
        ) && m@ == "update requires at least one field"@),
        !changes_nothing(*patch, text_of(api_key)) ==> (res matches Ok(plan) && plans(
            plan,
            *patch,
            text_of(api_key),
        )),
        patch.provider is Some || patch.url is Some || api_key is Some || patch.status is Some
            || patch.locked is Some ==> res is Ok,
        res is Err ==> patch.provider is None && patch.url is None && api_key is None
            && patch.status is None && patch.locked is None,
        res is Ok && patch.provider is Some ==> contains_text(res->Ok_0.sql@, "provider = ?"@),
        res is Ok && patch.url is Some ==> contains_text(res->Ok_0.sql@, "url = ?"@),
        res is Ok && api_key is Some ==> contains_text(res->Ok_0.sql@, "api_key = ?"@),
        res is Ok && patch.status is Some ==> contains_text(
            res->Ok_0.sql@,
            "status = "@ + decimal(patch.status.unwrap() as int),
        ),
        res is Ok && patch.locked is Some ==> contains_text(
            res->Ok_0.sql@,
            "locked = "@ + decimal(patch.locked.unwrap() as int),
        ),
        res is Ok ==> res->Ok_0.params@.len() == count_if(patch.provider is Some) + count_if(
            patch.url is Some,
        ) + count_if(api_key is Some),
{
    proof {
        law_update_assigns_what_it_sets(*patch, text_of(api_key));
    }
    let ghost key_view = text_of(api_key);
    let mut sets: Vec<String> = Vec::new();
    let mut params: Vec<String> = Vec::new();
    let ghost mut set_view: Seq<Seq<char>> = seq![];
    let ghost mut param_view: Seq<Seq<char>> = seq![];

    if let Some(provider) = &patch.provider {
        sets.push(literal("provider = ?"));
        params.push(trim(provider.as_str()));
        proof {
            set_view = set_view.push("provider = ?"@);
            param_view = param_view.push(trimmed(provider@));
        }
    }
    assert(views(sets@) =~= set_view);
    assert(views(params@) =~= param_view);
    if let Some(url) = &patch.url {
        sets.push(literal("url = ?"));
        params.push(trim(url.as_str()));
        proof {
            set_view = set_view.push("url = ?"@);
            param_view = param_view.push(trimmed(url@));
        }
    }
    assert(views(sets@) =~= set_view);
    assert(views(params@) =~= param_view);
    let has_api_key = api_key.is_some();
    if let Some(key) = api_key {
        sets.push(literal("api_key = ?"));
        proof {
            set_view = set_view.push("api_key = ?"@);
            param_view = param_view.push(key@);
        }
        params.push(key);
    }
    assert(views(sets@) =~= set_view);
    assert(views(params@) =~= param_view);
    assert(param_view =~= update_params(*patch, key_view));

    if sets.len() == 0 && patch.status.is_none() && patch.locked.is_none() {
        return Err(AppError::Validation(literal("update requires at least one field")));
    }
    if let Some(status) = patch.status {
        let mut item = literal("status = ");
        let shown = format_i64(status);
        item.append(shown.as_str());
        proof {
            set_view = set_view.push("status = "@ + decimal(status as int));
        }
        sets.push(item);
    }
    assert(views(sets@) =~= set_view);
    if let Some(locked) = patch.locked {
        let mut item = literal("locked = ");
        let shown = format_i64(locked);
        item.append(shown.as_str());
        proof {
            set_view = set_view.push("locked = "@ + decimal(locked as int));
        }
        sets.push(item);
    }
    assert(views(sets@) =~= set_view);
    sets.push(literal("updated_at = datetime('now')"));
    proof {
        set_view = set_view.push("updated_at = datetime('now')"@);
    }
    assert(views(sets@) =~= set_view);
    assert(set_view =~= update_assignments(*patch, key_view));

    let mut sql = literal("UPDATE models SET ");
    let joined = join_strings(&sets, ", ");
    sql.append(joined.as_str());
    sql.append(" WHERE id = ? RETURNING *");
    Ok(UpdatePlan { sql, params })
}

/// Validates an update and plans it: flags must be 0 or 1, a given api key must
/// not be empty and is sealed under a fresh nonce, and at least one field must change.
pub fn plan_update(crypto: &Crypto, patch: &ModelUpdate) -> (res: Result<UpdatePlan, AppError>)
    ensures
        patch.status is Some && !is_flag(patch.status.unwrap()) ==> (res matches Err(
            AppError::Validation(m),
        ) && m@ == flag_message("status"@, patch.status.unwrap())),
        optional_flag(patch.status) && patch.locked is Some && !is_flag(patch.locked.unwrap()) ==> (
        res matches Err(AppError::Validation(m)) && m@ == flag_message(
            "locked"@,
            patch.locked.unwrap(),
        )),
        flags_valid(*patch) && patch.api_key is Some && patch.api_key.unwrap()@.len() == 0 ==> (
        res matches Err(AppError::Validation(m)) && m@ == "`api_key` cannot be empty"@),
        flags_valid(*patch) && patch.api_key is None && changes_nothing(*patch, None) ==> (
        res matches Err(AppError::Validation(m)) && m@ == "update requires at least one field"@),
        flags_valid(*patch) && patch.api_key is None && !changes_nothing(*patch, None) ==> (
        res matches Ok(plan) && plans(plan, *patch, None)),
        flags_valid(*patch) && patch.api_key is Some && patch.api_key.unwrap()@.len() != 0 ==> (
        res is Ok <==> fits_cipher(patch.api_key.unwrap()@)),
        flags_valid(*patch) && patch.api_key is Some && patch.api_key.unwrap()@.len() != 0
            && !fits_cipher(patch.api_key.unwrap()@) ==> (res matches Err(AppError::Crypto(m)) && m@
            == "aead::Error"@),
        res matches Ok(plan) ==> exists|api_key: Option<Seq<char>>|
            {
                &&& plans(plan, *patch, api_key)
                &&& patch.api_key is None ==> api_key is None
                &&& patch.api_key matches Some(k) ==> (api_key matches Some(c) && seals(
                    crypto.key_bytes(),
                    c,
                    k@,
                ))
            },
        res matches Err(e) ==> e is Validation || e is Crypto,
        flags_valid(*patch) && patch.api_key is None && (patch.provider is Some || patch.url is Some
            || patch.status is Some || patch.locked is Some) ==> res is Ok,
        res is Ok && patch.status is Some ==> contains_text(
            res->Ok_0.sql@,
            "status = "@ + decimal(patch.status.unwrap() as int),
        ),
        res is Ok && patch.locked is Some ==> contains_text(
            res->Ok_0.sql@,
            "locked = "@ + decimal(patch.locked.unwrap() as int),
        ),
{
    if let Some(status) = patch.status {
        flag(status, "status")?;
    }
    if let Some(locked) = patch.locked {
        flag(locked, "locked")?;
    }
    let encrypted_api_key = match &patch.api_key {
        Some(key) => {
            if key.as_str().is_empty() {
                return Err(AppError::Validation(literal("`api_key` cannot be empty")));
            }
            Some(crypto.encrypt(key.as_str())?)
        },
        None => None,
    };
    let ghost key_view = text_of(encrypted_api_key);
    let res = build_update(patch, encrypted_api_key);
    assert(res matches Ok(plan) ==> plans(plan, *patch, key_view));
    res
}

/// Decides what a delete request does, given the row's lock flag (`None` when
/// the row does not exist). Locked rows are refused unless `force` is set.
pub fn delete_step(id: i64, locked: Option<i64>, force: bool) -> (res: Result<DeleteStep, AppError>)
    ensures
        locked is None ==> res == Ok::<DeleteStep, AppError>(DeleteStep::Absent),
        locked matches Some(l) && l != 0 && !force ==> (res matches Err(AppError::Validation(m))
            && m@ == locked_message(id)),
        locked matches Some(l) && (l == 0 || force) ==> res == Ok::<DeleteStep, AppError>(
            DeleteStep::Remove,
        ),
{
    match locked {
        None => Ok(DeleteStep::Absent),
        Some(l) => {
            if l != 0 && !force {
                let mut msg = literal("model ");
                let shown = format_i64(id);
                msg.append(shown.as_str());
                msg.append(" is locked; unlock it first or pass force=true");
                Err(AppError::Validation(msg))
            } else {
                Ok(DeleteStep::Remove)
            }
        },
    }
}

/// Whether a delete removed the row, from the number of rows it affected.
pub fn removed_any(rows_affected: u64) -> (res: bool)
    ensures
        res == (rows_affected > 0),
{
    rows_affected > 0
}

/// Replaces the stored api key of a row by its plaintext. `None` where the key's
/// nonce field has the wrong length, on which the cipher panics.
pub fn into_decrypted(crypto: &Crypto, row: Model) -> (res: Option<Result<Model, AppError>>)
    ensures
        res is None <==> nonce_length_mismatch(row.api_key@),
        res matches Some(r) ==> (r is Ok <==> reads_back(crypto.key_bytes(), row)),
        res matches Some(Ok(m)) ==> decrypted_row(crypto.key_bytes(), row, m),
        res matches Some(Err(e)) ==> decrypt_outcome(
            crypto.key_bytes(),
            row.api_key@,
            Err::<String, AppError>(e),
        ),
{
    let opened = crypto.try_decrypt(row.api_key.as_str());
    match opened {
        None => None,
        Some(Err(e)) => Some(Err(e)),
        Some(Ok(key)) => {
            let mut model = row;
            model.api_key = key;
            Some(Ok(model))
        },
    }
}

fn copy_text(s: &String) -> (res: String)
    ensures
        res@ == s@,
{
    s.clone()
}

fn copy_row(row: &Model) -> (res: Model)
    ensures
        same_but_api_key(res, *row),
        res.api_key@ == row.api_key@,
{
    Model {
        id: row.id,
        provider: copy_text(&row.provider),
        url: copy_text(&row.url),
        api_key: copy_text(&row.api_key),
        status: row.status,
        locked: row.locked,
        created_at: copy_text(&row.created_at),
        updated_at: copy_text(&row.updated_at),
    }
}

/// Reads back every row of a listing in order, stopping at the first row whose key
/// fails to read (an error) or whose nonce field has the wrong length (`None`, where
/// the cipher panics).
pub fn decrypt_all(crypto: &Crypto, rows: &Vec<Model>) -> (res: Option<Result<Vec<Model>, AppError>>)
    ensures
        res matches Some(Ok(_)) <==> forall|i: int|
            0 <= i < rows@.len() ==> reads_back(crypto.key_bytes(), #[trigger] rows@[i]),
        res is None <==> exists|i: int|
            0 <= i < rows@.len() && nonce_length_mismatch(#[trigger] rows@[i].api_key@) && forall|
                j: int,
            | 0 <= j < i ==> reads_back(crypto.key_bytes(), #[trigger] rows@[j]),
        res matches Some(Ok(models)) ==> models@.len() == rows@.len() && forall|i: int|
            0 <= i < rows@.len() ==> decrypted_row(crypto.key_bytes(), rows@[i], #[trigger] models@[i]),
        res matches Some(Err(e)) ==> exists|i: int|
            {
                &&& 0 <= i < rows@.len()
                &&& forall|j: int| 0 <= j < i ==> reads_back(crypto.key_bytes(), #[trigger] rows@[j])
                &&& !nonce_length_mismatch(#[trigger] rows@[i].api_key@)
                &&& decrypt_outcome(crypto.key_bytes(), rows@[i].api_key@, Err::<String, AppError>(e))
            },
{
    let ghost key = crypto.key_bytes();
    let mut out: Vec<Model> = Vec::new();
    let mut i: usize = 0;
    while i < rows.len()
        invariant
            key == crypto.key_bytes(),
            i <= rows@.len(),
            out@.len() == i,
            forall|j: int| 0 <= j < i ==> reads_back(key, #[trigger] rows@[j]),
            forall|j: int| 0 <= j < i ==> decrypted_row(key, rows@[j], #[trigger] out@[j]),
        decreases rows@.len() - i,
    {
        let row = copy_row(&rows[i]);
        match into_decrypted(crypto, row) {
            None => {
                assert(nonce_length_mismatch(rows@[i as int].api_key@));
                return None;
            },
            Some(Err(e)) => {
                assert(!reads_back(key, rows@[i as int]));
                assert forall|j: int|
                    0 <= j < rows@.len() && nonce_length_mismatch(#[trigger] rows@[j].api_key@)
                    implies !(forall|k: int| 0 <= k < j ==> reads_back(key, #[trigger] rows@[k])) by {
                    if j < i {
                        assert(reads_back(key, rows@[j]));
                    } else if j > i {
                        assert(!reads_back(key, rows@[i as int]));
                    }
                }
                return Some(Err(e));
            },
            Some(Ok(model)) => {
                out.push(model);
            },
        }
        i = i + 1;
    }
    Some(Ok(out))
}

} // verus!
