//! Schema validation for the user-authored role-assignment document.
//!
//! A document maps category names to category descriptors. A descriptor must
//! carry a numeric `limit` and a non-empty `roles` object, and every role
//! entry must carry a `search` string and numeric `primary` and `secondary`
//! role identifiers. Validation accumulates every violation instead of
//! stopping at the first, so a caller gets the complete report in one pass;
//! an empty report means the document may be persisted.

use vstd::prelude::*;

use crate::json::JsonV;
use crate::json::JsonValue;
use crate::json::jv_get;
use crate::json::lemma_obj_view;
use crate::json::obj_view;

verus! {

/// The three required fields of one role entry.
#[derive(Clone, Copy, PartialEq, Eq, Structural, Debug)]
pub enum RoleField {
    Search,
    Primary,
    Secondary,
}

/// One schema violation, naming the place in the document it was found.
#[derive(Debug)]
pub enum Violation {
    /// A category has no `limit` field.
    MissingLimit { category: String },
    /// A category's `limit` is not a number.
    LimitNotNumber { category: String },
    /// A category has no `roles` field.
    MissingRoles { category: String },
    /// A category's `roles` is not an object.
    RolesNotObject { category: String },
    /// A category's `roles` object has no entries.
    RolesEmpty { category: String },
    /// A role entry lacks one of its required fields.
    RoleFieldMissing { category: String, role: String, field: RoleField },
    /// A role entry's field has the wrong type: `search` must be a string,
    /// `primary` and `secondary` numbers representable as `u64`.
    RoleFieldWrongType { category: String, role: String, field: RoleField },
}

/// The model of one violation.
pub enum VioV {
    MissingLimit { category: Seq<char> },
    LimitNotNumber { category: Seq<char> },
    MissingRoles { category: Seq<char> },
    RolesNotObject { category: Seq<char> },
    RolesEmpty { category: Seq<char> },
    RoleFieldMissing { category: Seq<char>, role: Seq<char>, field: RoleField },
    RoleFieldWrongType { category: Seq<char>, role: Seq<char>, field: RoleField },
}

impl View for Violation {
    type V = VioV;

    open spec fn view(&self) -> VioV {
        match self {
            Violation::MissingLimit { category } => VioV::MissingLimit { category: category@ },
            Violation::LimitNotNumber { category } => VioV::LimitNotNumber { category: category@ },
            Violation::MissingRoles { category } => VioV::MissingRoles { category: category@ },
            Violation::RolesNotObject { category } => VioV::RolesNotObject { category: category@ },
            Violation::RolesEmpty { category } => VioV::RolesEmpty { category: category@ },
            Violation::RoleFieldMissing { category, role, field } => VioV::RoleFieldMissing {
                category: category@,
                role: role@,
                field: *field,
            },
            Violation::RoleFieldWrongType { category, role, field } => VioV::RoleFieldWrongType {
                category: category@,
                role: role@,
                field: *field,
            },
        }
    }
}

/// The models of a sequence of violations.
pub open spec fn vios_view(s: Seq<Violation>) -> Seq<VioV> {
    s.map_values(|v: Violation| v@)
}

proof fn lemma_vios_view_push(s: Seq<Violation>, v: Violation)
    ensures
        vios_view(s.push(v)) == vios_view(s).push(v@),
{
    assert(vios_view(s.push(v)) =~= vios_view(s).push(v@));
}

/// The document key a required role field is stored under.
pub open spec fn field_key(f: RoleField) -> Seq<char> {
    match f {
        RoleField::Search => "search"@,
        RoleField::Primary => "primary"@,
        RoleField::Secondary => "secondary"@,
    }
}

/// Whether a value has the type the field requires.
pub open spec fn field_type_ok(f: RoleField, v: JsonV) -> bool {
    match f {
        RoleField::Search => v is Text,
        RoleField::Primary => v is UInt,
        RoleField::Secondary => v is UInt,
    }
}

/// The report one required field of one role entry contributes.
pub open spec fn field_report(cat: Seq<char>, role: Seq<char>, rolev: JsonV, f: RoleField) -> Seq<
    VioV,
> {
    match jv_get(rolev, field_key(f)) {
        Some(v) => if field_type_ok(f, v) {
            seq![]
        } else {
            seq![VioV::RoleFieldWrongType { category: cat, role: role, field: f }]
        },
        None => seq![VioV::RoleFieldMissing { category: cat, role: role, field: f }],
    }
}

/// The report one role entry contributes: its three fields, in order.
pub open spec fn role_report(cat: Seq<char>, role: Seq<char>, rolev: JsonV) -> Seq<VioV> {
    field_report(cat, role, rolev, RoleField::Search) + field_report(
        cat,
        role,
        rolev,
        RoleField::Primary,
    ) + field_report(cat, role, rolev, RoleField::Secondary)
}

/// The report of the first `n` role entries of a category.
pub open spec fn roles_entries_report(
    cat: Seq<char>,
    entries: Seq<(Seq<char>, JsonV)>,
    n: int,
) -> Seq<VioV>
    decreases n,
{
    if n <= 0 {
        seq![]
    } else {
        roles_entries_report(cat, entries, n - 1) + role_report(
            cat,
            entries[n - 1].0,
            entries[n - 1].1,
        )
    }
}

/// The report a category's `limit` field contributes.
pub open spec fn limit_report(cat: Seq<char>, catv: JsonV) -> Seq<VioV> {
    match jv_get(catv, "limit"@) {
        Some(l) => if l is UInt || l is OtherNum {
            seq![]
        } else {
            seq![VioV::LimitNotNumber { category: cat }]
        },
        None => seq![VioV::MissingLimit { category: cat }],
    }
}

/// The report a category's `roles` field contributes.
pub open spec fn roles_report(cat: Seq<char>, catv: JsonV) -> Seq<VioV> {
    match jv_get(catv, "roles"@) {
        Some(r) => match r {
            JsonV::Object(entries) => if entries.len() == 0 {
                seq![VioV::RolesEmpty { category: cat }]
            } else {
                roles_entries_report(cat, entries, entries.len() as int)
            },
            _ => seq![VioV::RolesNotObject { category: cat }],
        },
        None => seq![VioV::MissingRoles { category: cat }],
    }
}

/// The report one category contributes: its limit, then its roles.
pub open spec fn category_report(cat: Seq<char>, catv: JsonV) -> Seq<VioV> {
    limit_report(cat, catv) + roles_report(cat, catv)
}

/// The report of the first `n` categories of a document.
pub open spec fn doc_report(doc: Seq<(Seq<char>, JsonV)>, n: int) -> Seq<VioV>
    decreases n,
{
    if n <= 0 {
        seq![]
    } else {
        doc_report(doc, n - 1) + category_report(doc[n - 1].0, doc[n - 1].1)
    }
}

/// The full validation report of a document: every violation, in document
/// order.
pub open spec fn spec_validate(doc: Seq<(Seq<char>, JsonV)>) -> Seq<VioV> {
    doc_report(doc, doc.len() as int)
}

/// Whether one required field of a role entry is present with the right type.
pub open spec fn field_wf(rolev: JsonV, f: RoleField) -> bool {
    match jv_get(rolev, field_key(f)) {
        Some(v) => field_type_ok(f, v),
        None => false,
    }
}

/// Whether a role entry carries all three required fields, well typed.
pub open spec fn role_wf(rolev: JsonV) -> bool {
    &&& field_wf(rolev, RoleField::Search)
    &&& field_wf(rolev, RoleField::Primary)
    &&& field_wf(rolev, RoleField::Secondary)
}

/// Whether a category descriptor meets the schema.
pub open spec fn category_wf(catv: JsonV) -> bool {
    &&& jv_get(catv, "limit"@) matches Some(l) && (l is UInt || l is OtherNum)
    &&& jv_get(catv, "roles"@) matches Some(JsonV::Object(entries)) && entries.len() > 0 && (forall|
        i: int,
    |
        0 <= i < entries.len() ==> role_wf(#[trigger] entries[i].1))
}

/// Whether a whole document meets the schema.
pub open spec fn doc_wf(doc: Seq<(Seq<char>, JsonV)>) -> bool {
    forall|i: int| 0 <= i < doc.len() ==> category_wf(#[trigger] doc[i].1)
}

proof fn lemma_role_report_empty(cat: Seq<char>, role: Seq<char>, rolev: JsonV)
    ensures
        (role_report(cat, role, rolev).len() == 0) <==> role_wf(rolev),
{
}

proof fn lemma_entries_report_empty(cat: Seq<char>, entries: Seq<(Seq<char>, JsonV)>, n: int)
    requires
        0 <= n <= entries.len(),
    ensures
        (roles_entries_report(cat, entries, n).len() == 0) <==> (forall|i: int|
            0 <= i < n ==> role_wf(#[trigger] entries[i].1)),
    decreases n,
{
    if n > 0 {
        lemma_entries_report_empty(cat, entries, n - 1);
        lemma_role_report_empty(cat, entries[n - 1].0, entries[n - 1].1);
    }
}

proof fn lemma_category_report_empty(cat: Seq<char>, catv: JsonV)
    ensures
        (category_report(cat, catv).len() == 0) <==> category_wf(catv),
{
    if let Some(r) = jv_get(catv, "roles"@) {
        if let JsonV::Object(entries) = r {
            if entries.len() > 0 {
                lemma_entries_report_empty(cat, entries, entries.len() as int);
            }
        }
    }
}

proof fn lemma_doc_report_empty(doc: Seq<(Seq<char>, JsonV)>, n: int)
    requires
        0 <= n <= doc.len(),
    ensures
        (doc_report(doc, n).len() == 0) <==> (forall|i: int|
            0 <= i < n ==> category_wf(#[trigger] doc[i].1)),
    decreases n,
{
    if n > 0 {
        lemma_doc_report_empty(doc, n - 1);
        lemma_category_report_empty(doc[n - 1].0, doc[n - 1].1);
    }
}

/// Law: the validation report is empty exactly when every category of the
/// document has a numeric limit and a non-empty, well-formed roles mapping.
pub proof fn lemma_report_empty_iff_wf(doc: Seq<(Seq<char>, JsonV)>)
    ensures
        (spec_validate(doc).len() == 0) <==> doc_wf(doc),
{
    lemma_doc_report_empty(doc, doc.len() as int);
}

/// Checks one required field of one role entry, appending the violation it
/// contributes, if any.
fn check_role_field(
    cat: &String,
    role: &String,
    rolev: &JsonValue,
    f: RoleField,
    key: &String,
    report: &mut Vec<Violation>,
)
    requires
        key@ == field_key(f),
    ensures
        vios_view(final(report)@) == vios_view(old(report)@) + field_report(cat@, role@, rolev@, f),
{
    let ghost pre = report@;
    match rolev.get(key) {
        Some(v) => {
            let ok = if matches!(f, RoleField::Search) {
                v.is_string()
            } else {
                v.is_u64()
            };
            if !ok {
                report.push(
                    Violation::RoleFieldWrongType {
                        category: cat.clone(),
                        role: role.clone(),
                        field: f,
                    },
                );
                proof {
                    lemma_vios_view_push(pre, report@[report@.len() - 1]);
                    assert(vios_view(report@) =~= vios_view(pre) + field_report(
                        cat@,
                        role@,
                        rolev@,
                        f,
                    ));
                }
            } else {
                assert(vios_view(report@) =~= vios_view(pre) + field_report(
                    cat@,
                    role@,
                    rolev@,
                    f,
                ));
            }
        },
        None => {
            report.push(
                Violation::RoleFieldMissing { category: cat.clone(), role: role.clone(), field: f },
            );
            proof {
                lemma_vios_view_push(pre, report@[report@.len() - 1]);
                assert(vios_view(report@) =~= vios_view(pre) + field_report(
                    cat@,
                    role@,
                    rolev@,
                    f,
                ));
            }
        },
    }
}

/// Checks one role entry: all three required fields, in order.
fn check_role(cat: &String, role: &String, rolev: &JsonValue, report: &mut Vec<Violation>)
    ensures
        vios_view(final(report)@) == vios_view(old(report)@) + role_report(cat@, role@, rolev@),
{
    let search_key: String = "search".to_owned();
    let primary_key: String = "primary".to_owned();
    let secondary_key: String = "secondary".to_owned();
    check_role_field(cat, role, rolev, RoleField::Search, &search_key, report);
    check_role_field(cat, role, rolev, RoleField::Primary, &primary_key, report);
    check_role_field(cat, role, rolev, RoleField::Secondary, &secondary_key, report);
    assert(vios_view(report@) =~= vios_view(old(report)@) + role_report(cat@, role@, rolev@));
}

/// Checks one category: its `limit`, then its `roles`.
#[verifier::loop_isolation(false)]
fn check_category(cat: &String, catv: &JsonValue, report: &mut Vec<Violation>)
    ensures
        vios_view(final(report)@) == vios_view(old(report)@) + category_report(cat@, catv@),
{
    let ghost pre = report@;
    let limit_key: String = "limit".to_owned();
    let roles_key: String = "roles".to_owned();

    match catv.get(&limit_key) {
        Some(lim) => {
            if !lim.is_number() {
                report.push(Violation::LimitNotNumber { category: cat.clone() });
                proof {
                    lemma_vios_view_push(pre, report@[report@.len() - 1]);
                }
            }
        },
        None => {
            report.push(Violation::MissingLimit { category: cat.clone() });
            proof {
                lemma_vios_view_push(pre, report@[report@.len() - 1]);
            }
        },
    }
    assert(vios_view(report@) =~= vios_view(pre) + limit_report(cat@, catv@));
    let ghost mid = report@;

    match catv.get(&roles_key) {
        Some(roles) => {
            match roles {
                JsonValue::Object(role_entries) => {
                    proof {
                        lemma_obj_view(*role_entries, role_entries.len() as int);
                    }
                    let ghost ev = obj_view(*role_entries, role_entries.len() as int);
                    if role_entries.len() == 0 {
                        report.push(Violation::RolesEmpty { category: cat.clone() });
                        proof {
                            lemma_vios_view_push(mid, report@[report@.len() - 1]);
                        }
                    } else {
                        let mut i: usize = 0;
                        while i < role_entries.len()
                            invariant
                                i <= role_entries.len(),
                                vios_view(report@) == vios_view(mid) + roles_entries_report(
                                    cat@,
                                    ev,
                                    i as int,
                                ),
                            decreases role_entries.len() - i,
                        {
                            check_role(cat, &role_entries[i].0, &role_entries[i].1, report);
                            proof {
                                assert(vios_view(report@) =~= vios_view(mid)
                                    + roles_entries_report(cat@, ev, i as int + 1));
                            }
                            i += 1;
                        }
                    }
                },
                _ => {
                    report.push(Violation::RolesNotObject { category: cat.clone() });
                    proof {
                        lemma_vios_view_push(mid, report@[report@.len() - 1]);
                    }
                },
            }
        },
        None => {
            report.push(Violation::MissingRoles { category: cat.clone() });
            proof {
                lemma_vios_view_push(mid, report@[report@.len() - 1]);
            }
        },
    }
    assert(vios_view(report@) =~= vios_view(pre) + category_report(cat@, catv@));
}

/// Validates a role-assignment document against the schema, returning every
/// violation found, in document order. An empty report means the document is
/// acceptable for persistence.
#[verifier::loop_isolation(false)]
pub fn validate_roles_config(doc: &Vec<(String, JsonValue)>) -> (report: Vec<Violation>)
    ensures
        vios_view(report@) == spec_validate(obj_view(*doc, doc.len() as int)),
{
    proof {
        lemma_obj_view(*doc, doc.len() as int);
    }
    let ghost dv = obj_view(*doc, doc.len() as int);
    let mut report: Vec<Violation> = Vec::new();
    assert(vios_view(report@) =~= doc_report(dv, 0));
    let mut ci: usize = 0;
    while ci < doc.len()
        invariant
            ci <= doc.len(),
            vios_view(report@) == doc_report(dv, ci as int),
        decreases doc.len() - ci,
    {
        check_category(&doc[ci].0, &doc[ci].1, &mut report);
        assert(vios_view(report@) == doc_report(dv, ci as int + 1));
        ci += 1;
    }
    report
}

} // verus!
