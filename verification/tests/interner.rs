use lsif::reader::interner::{InternError, Interner};
use std::collections::HashSet;

fn compare_from_vec(input: &[Vec<u8>]) -> Result<HashSet<u64>, String> {
    let mut results = HashSet::with_capacity(input.len());
    let mut interner = Interner::new();

    for num in input {
        let x = interner.intern(num).unwrap();
        results.insert(x);
    }

    for num in input {
        let x = interner.intern(num).unwrap();
        results
            .get(&x)
            .ok_or(String::from("result not found in previous set"))?;
    }

    Ok(results)
}

fn string_vec_to_bytes(values: Vec<&str>) -> Vec<Vec<u8>> {
    values.iter().map(|s| s.as_bytes().to_vec()).collect()
}

#[test]
fn empty_data_doesnt_throw() {
    let mut interner = Interner::new();

    assert_eq!(interner.intern(&Vec::new()).unwrap(), 0);
}

#[test]
fn numbers_test() {
    let values = string_vec_to_bytes(vec!["1", "2", "3", "4", "100", "500"]);

    let results = compare_from_vec(&values).unwrap();

    assert_eq!(results.len(), values.len());
}

#[test]
fn numbers_in_strings_test() {
    let values = string_vec_to_bytes(vec![
        r#""1""#, r#""2""#, r#""3""#, r#""4""#, r#""100""#, r#""500""#,
    ]);

    let results = compare_from_vec(&values).unwrap();

    assert_eq!(results.len(), values.len());
}

#[test]
fn normal_strings_test() {
    let values = string_vec_to_bytes(vec![
        r#""assert_eq!(results.len(), values.len());""#,
        r#""sample text""#,
        r#""why must this be utf16. Curse you javascript""#,
        r#""I'd just like to interject for a moment.  What you're referring to as Linux,
            is in fact, GNU/Linux, or as I've recently taken to calling it, GNU plus Linux.
            Linux is not an operating system unto itself, but rather another free component
            of a fully functioning GNU system made useful by the GNU corelibs, shell
            utilities and vital system components comprising a full OS as defined by POSIX.""#,
    ]);

    let results = compare_from_vec(&values).unwrap();

    assert_eq!(results.len(), values.len());
}

#[test]
fn duplicate_string() {
    let values = string_vec_to_bytes(vec![
        r#""assert_eq!(results.len(), values.len());""#,
        r#""sample text""#,
        r#""why must this be utf16. Curse you javascript""#,
        r#""why must this be utf16. Curse you javascript""#,
        r#""why must this be utf16. Curse you javascript""#,
        r#""I'd just like to interject for a moment.  What you're referring to as Linux,
            is in fact, GNU/Linux, or as I've recently taken to calling it, GNU plus Linux.
            Linux is not an operating system unto itself, but rather another free component
            of a fully functioning GNU system made useful by the GNU corelibs, shell
            utilities and vital system components comprising a full OS as defined by POSIX.""#,
    ]);

    let results = compare_from_vec(&values).unwrap();

    assert_eq!(results.len(), values.len() - 2);
}

#[test]
fn numbers_pass_through_quoted_or_not() {
    let mut interner = Interner::new();
    assert_eq!(interner.intern(b"123"), Ok(123));
    assert_eq!(interner.intern(b"\"123\""), Ok(123));
    assert_eq!(interner.intern(b"+7"), Ok(7));
    assert_eq!(interner.intern(b"007"), Ok(7));
    assert_eq!(interner.intern(b"18446744073709551615"), Ok(u64::MAX));
    assert_eq!(interner.len(), 0);
}

#[test]
fn texts_get_the_next_identifier_in_first_seen_order() {
    let mut interner = Interner::new();
    assert_eq!(interner.intern(b"\"alpha\""), Ok(1));
    assert_eq!(interner.intern(b"\"beta\""), Ok(2));
    assert_eq!(interner.intern(b"\"alpha\""), Ok(1));
    assert_eq!(interner.intern(b"\"gamma\""), Ok(3));
    assert_eq!(interner.intern(b"\"\""), Ok(4));
    assert_eq!(interner.intern(b"\"beta\""), Ok(2));
    assert_eq!(interner.len(), 4);
}

#[test]
fn interners_do_not_share_identifiers() {
    let mut first = Interner::new();
    let mut second = Interner::new();
    assert_eq!(first.intern(b"\"a\""), Ok(1));
    assert_eq!(first.intern(b"\"b\""), Ok(2));
    assert_eq!(second.intern(b"\"b\""), Ok(1));
}

#[test]
fn malformed_identifiers_are_refused() {
    let mut interner = Interner::new();
    assert_eq!(interner.intern(b"abc"), Err(InternError::InvalidNumber));
    assert_eq!(interner.intern(b"12a"), Err(InternError::InvalidNumber));
    assert_eq!(interner.intern(b"-1"), Err(InternError::InvalidNumber));
    assert_eq!(interner.intern(b"+"), Err(InternError::InvalidNumber));
    assert_eq!(interner.intern(b" 1"), Err(InternError::InvalidNumber));
    assert_eq!(
        interner.intern(b"18446744073709551616"),
        Err(InternError::InvalidNumber)
    );
    assert_eq!(interner.intern(b"\""), Err(InternError::UnterminatedString));
    assert_eq!(interner.intern(b"\"\xff\xfe\""), Err(InternError::InvalidText));
    assert_eq!(interner.len(), 0);
}

#[test]
fn quoted_number_too_large_is_a_text() {
    let mut interner = Interner::new();
    assert_eq!(interner.intern(b"\"18446744073709551616\""), Ok(1));
    assert_eq!(interner.intern(b"\"18446744073709551616\""), Ok(1));
}

#[test]
fn last_byte_of_a_quoted_identifier_is_not_looked_at() {
    let mut interner = Interner::new();
    assert_eq!(interner.intern(b"\"ab\""), Ok(1));
    assert_eq!(interner.intern(b"\"abc"), Ok(1));
    assert_eq!(interner.intern(b"\"abc\""), Ok(2));
    assert_eq!(interner.intern(b"\"12x"), Ok(12));
    assert_eq!(interner.intern(b"\"\""), Ok(3));
    assert_eq!(interner.intern(b"\"x"), Ok(3));
    assert_eq!(interner.len(), 3);
}
