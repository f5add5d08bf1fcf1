//! The export of completed targets: one record per target on which the
//! variants did not all pass.

use vstd::prelude::*;
use vstd::string::*;
use crate::encoding::{csv_bytes, encode, same_width};
use crate::error::EngineError;
use crate::outcome::{Done, DoneView, ElmTestVersion, RunResults};

verus! {

/// The column titles of the export.
pub open spec fn export_titles() -> Seq<Seq<char>> {
    seq![
        "Path"@,
        "Elm-test version"@,
        "Elm"@,
        "Lamdera stable no wire"@,
        "Lamdera stable"@,
        "Lamdera next no wire"@,
        "Lamdera next"@,
    ]
}

/// The fields of the record for a completed target: path, framework
/// version, one outcome per variant (empty where the variant is not run).
pub open spec fn export_cells(done: DoneView) -> Seq<Seq<char>> {
    match done.results {
        RunResults::V1 { elm_result, lamdera_stable_no_wire_result, lamdera_stable_result } => seq![
            done.path,
            ElmTestVersion::V1.digit(),
            elm_result.glyph(),
            lamdera_stable_no_wire_result.glyph(),
            lamdera_stable_result.glyph(),
            Seq::<char>::empty(),
            Seq::<char>::empty(),
        ],
        RunResults::V2 {
            elm_result,
            lamdera_stable_no_wire_result,
            lamdera_stable_result,
            lamdera_next_no_wire_result,
            lamdera_next_result,
        } => seq![
            done.path,
            ElmTestVersion::V2.digit(),
            elm_result.glyph(),
            lamdera_stable_no_wire_result.glyph(),
            lamdera_stable_result.glyph(),
            lamdera_next_no_wire_result.glyph(),
            lamdera_next_result.glyph(),
        ],
    }
}

/// The test "this target belongs in the export": some variant timed out or
/// reported failure.
pub open spec fn is_exported() -> spec_fn(Done) -> bool {
    |done: Done| !done.results.all_passed()
}

/// The records of the export: the titles, then the targets that belong in
/// it, in the order in which they completed.
pub open spec fn export_rows(dones: Seq<Done>) -> Seq<Seq<Seq<char>>> {
    seq![export_titles()] + dones.filter(is_exported()).map_values(|done: Done| export_cells(done@))
}

fn export_header() -> (titles: Vec<String>)
    ensures
        titles.deep_view() == export_titles(),
{
    let mut titles: Vec<String> = Vec::new();
    titles.push(String::from_str("Path"));
    titles.push(String::from_str("Elm-test version"));
    titles.push(String::from_str("Elm"));
    titles.push(String::from_str("Lamdera stable no wire"));
    titles.push(String::from_str("Lamdera stable"));
    titles.push(String::from_str("Lamdera next no wire"));
    titles.push(String::from_str("Lamdera next"));
    assert(titles.deep_view() =~= export_titles());
    titles
}

fn export_record(done: &Done) -> (record: Vec<String>)
    ensures
        record.deep_view() == export_cells(done@),
{
    let mut record: Vec<String> = Vec::new();
    record.push(done.path.clone());
    match done.results {
        RunResults::V1 { elm_result, lamdera_stable_no_wire_result, lamdera_stable_result } => {
            record.push(ElmTestVersion::V1.to_string());
            record.push(elm_result.to_string());
            record.push(lamdera_stable_no_wire_result.to_string());
            record.push(lamdera_stable_result.to_string());
            record.push(String::new());
            record.push(String::new());
        },
        RunResults::V2 {
            elm_result,
            lamdera_stable_no_wire_result,
            lamdera_stable_result,
            lamdera_next_no_wire_result,
            lamdera_next_result,
        } => {
            record.push(ElmTestVersion::V2.to_string());
            record.push(elm_result.to_string());
            record.push(lamdera_stable_no_wire_result.to_string());
            record.push(lamdera_stable_result.to_string());
            record.push(lamdera_next_no_wire_result.to_string());
            record.push(lamdera_next_result.to_string());
        },
    }
    assert(record.deep_view() =~= export_cells(done@));
    record
}

/// The records of the export as text: the titles, then one record for each
/// completed target on which not every variant passed. The targets stay in
/// the order in which they completed.
pub fn export_records(dones: &Vec<Done>) -> (records: Vec<Vec<String>>)
    ensures
        records.deep_view() == export_rows(dones@),
{
    let mut records: Vec<Vec<String>> = Vec::new();
    records.push(export_header());
    let mut i: usize = 0;
    assert(dones@.take(0).filter(is_exported()) =~= Seq::<Done>::empty()) by {
        reveal(Seq::filter);
    }
    assert(records.deep_view() =~= export_rows(dones@.take(0)));
    while i < dones.len()
        invariant
            i <= dones.len(),
            records.deep_view() == export_rows(dones@.take(i as int)),
        decreases dones.len() - i,
    {
        let ghost before = dones@.take(i as int);
        let ghost after = dones@.take(i + 1);
        proof {
            reveal(Seq::filter);
            assert(after.drop_last() =~= before);
            assert(after.last() == dones@[i as int]);
        }
        if !dones[i].results.all_passed() {
            let ghost rows_before = records.deep_view();
            let record = export_record(&dones[i]);
            records.push(record);
            proof {
                let kept = before.filter(is_exported());
                let cells = |done: Done| export_cells(done@);
                assert(after.filter(is_exported()) == kept.push(dones@[i as int]));
                assert(kept.push(dones@[i as int]).map_values(cells) =~= kept.map_values(cells).push(
                    export_cells(dones@[i as int]@),
                ));
                assert(records.deep_view() =~= rows_before.push(export_cells(dones@[i as int]@)));
                assert(export_rows(after) =~= export_rows(before).push(
                    export_cells(dones@[i as int]@),
                ));
            }
        } else {
            assert(after.filter(is_exported()) == before.filter(is_exported()));
        }
        i = i + 1;
    }
    assert(dones@.take(dones.len() as int) =~= dones@);
    records
}

/// Every record of the export has seven fields, so that the encoder takes
/// them all.
pub proof fn lemma_export_rows_have_same_width(dones: Seq<Done>)
    ensures
        same_width(export_rows(dones)),
        forall|i: int|
            0 <= i < export_rows(dones).len() ==> (#[trigger] export_rows(dones)[i]).len() == 7,
{
    let kept = dones.filter(is_exported());
    let rows = export_rows(dones);
    assert forall|i: int| 0 <= i < rows.len() implies (#[trigger] rows[i]).len() == 7 by {
        if i > 0 {
            assert(rows[i] == export_cells(kept[i - 1]@));
        }
    }
}

/// Encodes the export as comma-separated values: the encoding of
/// [`export_rows`]. This always succeeds, because every record of the
/// export has the same number of fields.
pub fn export(dones: &Vec<Done>) -> (encoded: Result<Vec<u8>, EngineError>)
    ensures
        encoded is Ok,
        encoded matches Ok(bytes) ==> bytes@ == csv_bytes(export_rows(dones@)),
{
    let records = export_records(dones);
    proof {
        lemma_export_rows_have_same_width(dones@);
    }
    encode(&records)
}

} // verus!
