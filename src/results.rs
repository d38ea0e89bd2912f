//! The judgment stage's results file: a JSON tree held as plain values, the
//! records read from it, and the tree that writes records back.
use vstd::prelude::*;

verus! {

/// A JSON value. Numbers keep their text; an object keeps its members in order.
pub enum Json {
    Null,
    Bool(bool),
    Number(String),
    Str(String),
    Array(Vec<Json>),
    Object(Vec<(String, Json)>),
}

/// One verdict of the judgment stage. `accessible` is `None` when the stage
/// abstained, which is neither `true` nor `false`.
pub struct JudgmentRecord {
    pub image: String,
    pub accessible: Option<bool>,
    pub reason: String,
}

pub struct RecordView {
    pub image: Seq<char>,
    pub accessible: Option<bool>,
    pub reason: Seq<char>,
}

impl View for JudgmentRecord {
    type V = RecordView;

    open spec fn view(&self) -> RecordView {
        RecordView { image: self.image@, accessible: self.accessible, reason: self.reason@ }
    }
}

pub open spec fn record_views(v: Seq<JudgmentRecord>) -> Seq<RecordView> {
    v.map_values(|r: JudgmentRecord| r@)
}

/// The results file is not of the expected shape.
pub struct FormatError {
    pub message: String,
}

/// The value of the first member called `key`.
pub open spec fn member(fields: Seq<(String, Json)>, key: Seq<char>) -> Option<Json>
    decreases fields.len(),
{
    if fields.len() == 0 {
        None
    } else if fields[0].0@ == key {
        Some(fields[0].1)
    } else {
        member(fields.drop_first(), key)
    }
}

/// `accessible` as read: absent or null is `None`, a boolean is itself,
/// anything else does not fit (the outer `None`).
pub open spec fn accessible_from(fields: Seq<(String, Json)>) -> Option<Option<bool>> {
    match member(fields, "accessible"@) {
        None => Some(None),
        Some(Json::Null) => Some(None),
        Some(Json::Bool(b)) => Some(Some(b)),
        _ => None,
    }
}

/// The record that `{ image, result: { accessible?, reason } }` holds.
pub open spec fn record_from(j: Json) -> Option<RecordView> {
    match j {
        Json::Object(f) => match (member(f@, "image"@), member(f@, "result"@)) {
            (Some(Json::Str(image)), Some(Json::Object(rf))) => match (
                accessible_from(rf@),
                member(rf@, "reason"@),
            ) {
                (Some(a), Some(Json::Str(reason))) => Some(
                    RecordView { image: image@, accessible: a, reason: reason@ },
                ),
                _ => None,
            },
            _ => None,
        },
        _ => None,
    }
}

/// Every item of the array is a record.
pub open spec fn all_records(items: Seq<Json>) -> bool {
    forall|i: int| 0 <= i < items.len() ==> (#[trigger] record_from(items[i])) is Some
}

/// The records that `{ results: [ ... ] }` holds, in their order.
pub open spec fn records_from(j: Json) -> Option<Seq<RecordView>> {
    match j {
        Json::Object(f) => match member(f@, "results"@) {
            Some(Json::Array(items)) => if all_records(items@) {
                Some(Seq::new(items@.len(), |i: int| record_from(items@[i])->0))
            } else {
                None
            },
            _ => None,
        },
        _ => None,
    }
}

fn member_index(fields: &Vec<(String, Json)>, key: &String) -> (r: Option<usize>)
    ensures
        match r {
            Some(i) => i < fields@.len() && member(fields@, key@) == Some(fields@[i as int].1),
            None => member(fields@, key@) is None,
        },
{
    let mut i: usize = 0;
    assert(fields@.subrange(0, fields@.len() as int) =~= fields@);
    while i < fields.len()
        invariant
            i <= fields@.len(),
            member(fields@, key@) == member(fields@.subrange(i as int, fields@.len() as int), key@),
        decreases fields@.len() - i,
    {
        let ghost rest = fields@.subrange(i as int, fields@.len() as int);
        assert(rest.drop_first() =~= fields@.subrange(i + 1, fields@.len() as int));
        assert(rest[0] == fields@[i as int]);
        if fields[i].0 == *key {
            return Some(i);
        }
        i = i + 1;
    }
    None
}

fn read_record(j: &Json) -> (r: Option<JudgmentRecord>)
    ensures
        match r {
            Some(rec) => record_from(*j) == Some(rec@),
            None => record_from(*j) is None,
        },
{
    let f = match j {
        Json::Object(f) => f,
        _ => return None,
    };
    let image = match member_index(f, &String::from_str("image")) {
        Some(i) => match &f[i].1 {
            Json::Str(s) => s,
            _ => return None,
        },
        None => return None,
    };
    let rf = match member_index(f, &String::from_str("result")) {
        Some(i) => match &f[i].1 {
            Json::Object(rf) => rf,
            _ => return None,
        },
        None => return None,
    };
    let accessible = match member_index(rf, &String::from_str("accessible")) {
        Some(i) => match &rf[i].1 {
            Json::Null => None,
            Json::Bool(b) => Some(*b),
            _ => return None,
        },
        None => None,
    };
    let reason = match member_index(rf, &String::from_str("reason")) {
        Some(i) => match &rf[i].1 {
            Json::Str(s) => s,
            _ => return None,
        },
        None => return None,
    };
    Some(JudgmentRecord { image: image.clone(), accessible, reason: reason.clone() })
}

/// Reads the records of a results file, in their order. Fails exactly when
/// the tree is not `{ results: [ { image, result: { accessible?, reason } } ] }`
/// with a string `image`, a string `reason` and a boolean, null or absent
/// `accessible`; other members are ignored.
pub fn parse_results(j: &Json) -> (r: Result<Vec<JudgmentRecord>, FormatError>)
    ensures
        match r {
            Ok(v) => records_from(*j) == Some(record_views(v@)),
            Err(_) => records_from(*j) is None,
        },
{
    let items = match j {
        Json::Object(f) => match member_index(f, &String::from_str("results")) {
            Some(i) => match &f[i].1 {
                Json::Array(items) => items,
                _ => {
                    return Err(FormatError { message: String::from_str("results is not an array") });
                },
            },
            None => {
                return Err(FormatError { message: String::from_str("results is missing") });
            },
        },
        _ => {
            return Err(FormatError { message: String::from_str("the file is not an object") });
        },
    };
    let mut out: Vec<JudgmentRecord> = Vec::new();
    let mut i: usize = 0;
    while i < items.len()
        invariant
            i <= items@.len(),
            out@.len() == i,
            records_from(*j) == if all_records(items@) {
                Some(Seq::new(items@.len(), |k: int| record_from(items@[k])->0))
            } else {
                None
            },
            forall|k: int| 0 <= k < i ==> record_from(items@[k]) == Some(#[trigger] out@[k]@),
        decreases items@.len() - i,
    {
        match read_record(&items[i]) {
            Some(rec) => out.push(rec),
            None => {
                assert(!all_records(items@));
                return Err(FormatError { message: String::from_str("a result is malformed") });
            },
        }
        i = i + 1;
    }
    assert forall|k: int| 0 <= k < items@.len() implies (#[trigger] record_from(items@[k])) is Some by {
        assert(record_from(items@[k]) == Some(out@[k]@));
    }
    assert(record_views(out@) =~= Seq::new(items@.len(), |k: int| record_from(items@[k])->0));
    Ok(out)
}

/// The tree written for one record.
pub fn record_to_json(rec: &JudgmentRecord) -> (j: Json)
    ensures
        record_from(j) == Some(rec@),
{
    let accessible = match rec.accessible {
        Some(b) => Json::Bool(b),
        None => Json::Null,
    };
    let mut result: Vec<(String, Json)> = Vec::new();
    result.push((String::from_str("accessible"), accessible));
    result.push((String::from_str("reason"), Json::Str(rec.reason.clone())));
    let mut fields: Vec<(String, Json)> = Vec::new();
    fields.push((String::from_str("image"), Json::Str(rec.image.clone())));
    fields.push((String::from_str("result"), Json::Object(result)));
    proof {
        reveal_strlit("accessible");
        reveal_strlit("reason");
        reveal_strlit("image");
        reveal_strlit("result");
        assert("accessible"@.len() == 10);
        assert("reason"@.len() == 6);
        assert("image"@.len() == 5);
        reveal_with_fuel(member, 3);
        assert(result@[1].0@ != "accessible"@);
        assert(result@.drop_first().drop_first().len() == 0);
        assert(member(result@, "reason"@) == Some(result@[1].1)) by {
            assert(result@[0].0@ != "reason"@);
            assert(result@.drop_first()[0] == result@[1]);
        }
        assert(member(fields@, "result"@) == Some(fields@[1].1)) by {
            assert(fields@[0].0@ != "result"@);
            assert(fields@.drop_first()[0] == fields@[1]);
        }
    }
    Json::Object(fields)
}

/// The results file that holds `records`, in their order: reading it back
/// gives the same records in the same order, abstentions included.
pub fn results_to_json(records: &Vec<JudgmentRecord>) -> (j: Json)
    ensures
        records_from(j) == Some(record_views(records@)),
{
    let mut items: Vec<Json> = Vec::new();
    let mut i: usize = 0;
    while i < records.len()
        invariant
            i <= records@.len(),
            items@.len() == i,
            forall|k: int| 0 <= k < i ==> record_from(#[trigger] items@[k]) == Some(records@[k]@),
        decreases records@.len() - i,
    {
        items.push(record_to_json(&records[i]));
        i = i + 1;
    }
    let fields = vec![(String::from_str("results"), Json::Array(items))];
    assert(member(fields@, "results"@) == Some(fields@[0].1));
    assert(Seq::new(items@.len(), |k: int| record_from(items@[k])->0) =~= record_views(records@));
    Json::Object(fields)
}

/// Writing records as a results file and reading that file back gives the
/// same records in the same order, abstentions included: `written` is what
/// `results_to_json` returns for `records`, and the read can neither fail
/// nor give other records than `records`.
pub proof fn lemma_results_round_trip(
    records: Seq<JudgmentRecord>,
    written: Json,
    read: Result<Vec<JudgmentRecord>, FormatError>,
)
    requires
        records_from(written) == Some(record_views(records)),
        match read {
            Ok(v) => records_from(written) == Some(record_views(v@)),
            Err(_) => records_from(written) is None,
        },
    ensures
        read is Ok,
        read->Ok_0@.len() == records.len(),
        forall|i: int| 0 <= i < records.len() ==> (#[trigger] read->Ok_0@[i])@ == records[i]@,
{
    let v = read->Ok_0@;
    assert(record_views(v).len() == record_views(records).len());
    assert forall|i: int| 0 <= i < records.len() implies (#[trigger] v[i])@ == records[i]@ by {
        assert(record_views(v)[i] == record_views(records)[i]);
    }
}

} // verus!
