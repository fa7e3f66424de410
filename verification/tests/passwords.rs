use passwd_gen::password::{collect_passwords, create_password};

const BASE: &str = "ABCDEFGHIJKLMNOPQRSTUVWXYZabcdefghijklmnopqrstuvwxyz0123456789*&^%$#@!";
const EXT: &str = "~`()_-+={[}]|\\:;\"'<,>.?/";

#[test]
fn password_test() {
    assert_eq!(2 + 2, 4);
    // Create a password with Alphanumeric and *&^%$#@! characters.
    let password: String = create_password(30, false);
    assert!(password.is_ascii());
    assert_eq!(password.len(), 30);
    assert!(!password.ends_with("\r\n"));

    // Create a password with Alphanumeric
    // and *&^%$#@!~`()_-+={[}]|\\:;\"'<,>.?/ characters.
    let password: String = create_password(30, true);
    assert!(password.is_ascii());
    assert_eq!(password.len(), 30);
    assert!(!password.ends_with("\r\n"));
}

#[test]
fn passwords_test() {
    // Collect a single password with Alphanumeric and *&^%$#@! characters.
    let password: String = collect_passwords(30, 1, false);
    assert!(password.is_ascii());
    assert_eq!(password.len(), 30);
    assert!(!password.ends_with("\r\n"));

    // Collect a single password with Alphanumeric
    // and *&^%$#@!~`()_-+={[}]|\\:;\"'<,>.?/ characters.
    let password: String = collect_passwords(30, 1, true);
    assert!(password.is_ascii());
    assert_eq!(password.len(), 30);
    assert!(!password.ends_with("\r\n"));

    // Collect two passwords with the same length into the a string with two lines.
    let passwords: String = collect_passwords(30, 2, false);
    assert!(passwords.is_ascii());
    assert_eq!(passwords.len(), 62);
    assert!(!passwords.ends_with("\r\n"));
    let vp: Vec<&str> = passwords.split("\r\n").collect();
    assert_eq!(vp[0].len(), 30);
    assert!(vp[0].is_ascii());
    assert_eq!(vp[1].len(), 30);
    assert!(vp[1].is_ascii());

    // Collect ten passwords is 10 lines of 40 characters with no (cr/lf) at the end.
    let passwords: String = collect_passwords(40, 10, false);
    assert!(passwords.is_ascii());
    assert_eq!(passwords.len(), 418);
    assert!(!passwords.ends_with("\r\n"));
}

#[test]
fn empty_password() {
    let password = create_password(0, false);
    assert_eq!(password.len(), 0);
    let password = create_password(0, true);
    assert_eq!(password.len(), 0);
}

#[test]
fn empty_batch() {
    assert_eq!(collect_passwords(30, 0, false), "");
    assert_eq!(collect_passwords(0, 0, true), "");
}

#[test]
fn every_character_is_from_the_alphabet() {
    let password = create_password(500, false);
    for c in password.chars() {
        assert!(BASE.contains(c), "unexpected character {:?}", c);
    }
    let password = create_password(500, true);
    for c in password.chars() {
        assert!(
            BASE.contains(c) || EXT.contains(c),
            "unexpected character {:?}",
            c
        );
    }
}

#[test]
fn first_character_never_extended() {
    // With length one, roughly a quarter of the raw draws land in the
    // extended region; over 300 passwords a missing guard would all but
    // surely show.
    for _ in 0..300 {
        let password = create_password(1, true);
        let first = password.chars().next().unwrap();
        assert!(BASE.contains(first), "first character {:?} is extended", first);
    }
}

#[test]
fn batch_of_one_has_no_separator() {
    let single = collect_passwords(12, 1, true);
    assert_eq!(single.len(), 12);
    assert!(!single.contains("\r\n"));
}

#[test]
fn batch_of_two_splits_in_two() {
    let pair = collect_passwords(8, 2, true);
    assert_eq!(pair.len(), 18);
    let vp: Vec<&str> = pair.split("\r\n").collect();
    assert_eq!(vp.len(), 2);
    assert_eq!(vp[0].len(), 8);
    assert_eq!(vp[1].len(), 8);
}

#[test]
fn batch_separator_count() {
    let passwords = collect_passwords(40, 10, false);
    assert_eq!(passwords.len(), 418);
    assert_eq!(passwords.matches("\r\n").count(), 9);
    assert!(!passwords.ends_with("\r\n"));
}

#[test]
fn base_alphabet_coverage() {
    // Statistical coverage: over ten thousand draws the chance that any of
    // the seventy base characters never appears is vanishingly small.
    let password = create_password(10_000, false);
    for c in BASE.chars() {
        assert!(password.contains(c), "character {:?} never drawn", c);
    }
}
