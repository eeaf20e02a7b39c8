use vstd::prelude::*;
use crate::text::{parse_decimal, parse_u32};
use crate::word::{HskWord, WordView, MAX_LEVEL, MIN_LEVEL};

verus! {

/// The field separator of vocabulary files: the backslash.
pub const DELIMITER: u8 = 0x5c;

/// The number of fields of a vocabulary row: number, characters, pinyin,
/// translations and level.
pub const FIELD_COUNT: usize = 5;

/// What is wrong with one row of a vocabulary file.
#[derive(Clone, Copy, Debug, PartialEq, Eq, Structural)]
pub enum RowFault {
    /// The row does not have exactly five fields.
    FieldCount,
    /// The number is not a positive decimal number that fits in a `u32`.
    Number,
    /// The characters, the pinyin or the translations are empty.
    EmptyField,
    /// The level is not a decimal number from 1 to 6.
    Level,
}

/// Why a vocabulary file could not be loaded.
#[derive(Clone, Copy, Debug, PartialEq, Eq, Structural)]
pub enum LoadError {
    /// The bytes are not a well-formed delimited table.
    Format,
    /// A data row (counted from zero, after the header) is malformed.
    Row { index: usize, fault: RowFault },
}

#[verifier::external_type_specification]
#[verifier::external_body]
pub struct ExCsvError(csv::Error);

/// The data rows of a delimited table, each as its list of fields, or `None`
/// where the table is malformed.
pub uninterp spec fn csv_records_of(data: Seq<u8>, delimiter: u8) -> Option<Seq<Seq<Seq<char>>>>;

/// Relies on csv's `ReaderBuilder::delimiter`, `from_reader` and
/// `Reader::records`: the outcome depends on the bytes and the delimiter
/// alone; the header row is not among the records returned.
#[verifier::external_body]
fn read_csv_records(data: &[u8], delimiter: u8) -> (r: Result<Vec<Vec<String>>, csv::Error>)
    ensures
        match r {
            Ok(rows) => csv_records_of(data@, delimiter) == Some(rows.deep_view()),
            Err(_) => csv_records_of(data@, delimiter) is None,
        },
{
    let mut reader = csv::ReaderBuilder::new().delimiter(delimiter).from_reader(data);
    let mut rows = Vec::new();
    for record in reader.records() {
        rows.push(record?.iter().map(String::from).collect());
    }
    Ok(rows)
}

/// The word that a row of fields describes, or what is wrong with the row.
/// Checks go in field order: the count, the number, the three texts, the level.
pub open spec fn parse_row(row: Seq<Seq<char>>) -> Result<WordView, RowFault> {
    if row.len() != FIELD_COUNT {
        Err(RowFault::FieldCount)
    } else {
        match parse_decimal(row[0]) {
            None => Err(RowFault::Number),
            Some(n) => if n == 0 || n > u32::MAX {
                Err(RowFault::Number)
            } else if row[1].len() == 0 || row[2].len() == 0 || row[3].len() == 0 {
                Err(RowFault::EmptyField)
            } else {
                match parse_decimal(row[4]) {
                    Some(l) => if MIN_LEVEL <= l <= MAX_LEVEL {
                        Ok(
                            WordView {
                                number: n as u32,
                                chinese: row[1],
                                pinyin: row[2],
                                translations: row[3],
                                level: l as u8,
                            },
                        )
                    } else {
                        Err(RowFault::Level)
                    },
                    None => Err(RowFault::Level),
                }
            },
        }
    }
}

/// Row `i` is the first malformed row.
pub open spec fn first_malformed(rows: Seq<Seq<Seq<char>>>, i: int) -> bool {
    &&& 0 <= i < rows.len()
    &&& forall|j: int| 0 <= j < i ==> parse_row(#[trigger] rows[j]) is Ok
    &&& parse_row(rows[i]) is Err
}

/// `r` is what loading `rows` gives: every word when every row is well formed,
/// else the fault of the first malformed row.
pub open spec fn loaded_from(rows: Seq<Seq<Seq<char>>>, r: Result<Vec<HskWord>, LoadError>) -> bool {
    match r {
        Ok(words) => {
            &&& words@.len() == rows.len()
            &&& forall|i: int| 0 <= i < rows.len() ==> parse_row(#[trigger] rows[i]) == Ok::<WordView, RowFault>(words@[i]@)
        },
        Err(e) => exists|i: int|
            #[trigger] first_malformed(rows, i) && e == (LoadError::Row {
                index: i as usize,
                fault: parse_row(rows[i])->Err_0,
            }),
    }
}

/// Turns one row of fields into a word.
pub fn parse_row_fields(row: &Vec<String>) -> (r: Result<HskWord, RowFault>)
    ensures
        match r {
            Ok(w) => parse_row(row.deep_view()) == Ok::<WordView, RowFault>(w@),
            Err(f) => parse_row(row.deep_view()) == Err::<WordView, RowFault>(f),
        },
{
    let ghost fields = row.deep_view();
    if row.len() != FIELD_COUNT {
        return Err(RowFault::FieldCount);
    }
    assert(fields[0] == row@[0]@ && fields[1] == row@[1]@ && fields[2] == row@[2]@);
    assert(fields[3] == row@[3]@ && fields[4] == row@[4]@);
    let number = match parse_u32(row[0].as_str()) {
        Some(n) => n,
        None => return Err(RowFault::Number),
    };
    if number == 0 {
        return Err(RowFault::Number);
    }
    if row[1].as_str().unicode_len() == 0 || row[2].as_str().unicode_len() == 0
        || row[3].as_str().unicode_len() == 0 {
        return Err(RowFault::EmptyField);
    }
    let level = match parse_u32(row[4].as_str()) {
        Some(l) => l,
        None => return Err(RowFault::Level),
    };
    if level < MIN_LEVEL as u32 || level > MAX_LEVEL as u32 {
        return Err(RowFault::Level);
    }
    Ok(
        HskWord {
            number,
            chinese: row[1].clone(),
            pinyin: row[2].clone(),
            translations: row[3].clone(),
            level: level as u8,
        },
    )
}

/// Turns data rows into words, all or nothing: the words of every row, in
/// order, or the fault of the first malformed row.
pub fn parse_records(rows: &Vec<Vec<String>>) -> (r: Result<Vec<HskWord>, LoadError>)
    ensures
        loaded_from(rows.deep_view(), r),
        r matches Ok(words) ==> forall|i: int| 0 <= i < words@.len() ==> (#[trigger] words@[i]).wf(),
{
    let ghost v = rows.deep_view();
    let mut words: Vec<HskWord> = Vec::new();
    let mut i: usize = 0;
    while i < rows.len()
        invariant
            i <= rows@.len(),
            v == rows.deep_view(),
            words@.len() == i,
            forall|j: int| 0 <= j < i ==> parse_row(#[trigger] v[j]) == Ok::<WordView, RowFault>(words@[j]@),
            forall|j: int| 0 <= j < i ==> (#[trigger] words@[j]).wf(),
        decreases rows@.len() - i,
    {
        assert(v[i as int] == rows@[i as int].deep_view());
        match parse_row_fields(&rows[i]) {
            Ok(w) => {
                words.push(w);
            },
            Err(f) => {
                assert(first_malformed(v, i as int));
                return Err(LoadError::Row { index: i, fault: f });
            },
        }
        i = i + 1;
    }
    Ok(words)
}

/// Loads a vocabulary file: a header row, then one row per word, fields
/// separated by `DELIMITER`.
pub fn load_words(data: &[u8]) -> (r: Result<Vec<HskWord>, LoadError>)
    ensures
        match csv_records_of(data@, DELIMITER) {
            None => r == Err::<Vec<HskWord>, LoadError>(LoadError::Format),
            Some(rows) => loaded_from(rows, r),
        },
        r matches Ok(words) ==> forall|i: int| 0 <= i < words@.len() ==> (#[trigger] words@[i]).wf(),
{
    match read_csv_records(data, DELIMITER) {
        Ok(rows) => parse_records(&rows),
        Err(_) => Err(LoadError::Format),
    }
}

} // verus!
