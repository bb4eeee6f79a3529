use disemvowel::disemvowel;
use disemvowel::is_vowel;

#[test]
fn hello_world() {
    let input = "Hello, world!";
    let expected = "Hll, wrld!";

    assert_eq!(expected, disemvowel(input));
}

#[test]
fn empty() {
    assert_eq!("", disemvowel(""));
}

#[test]
fn no_vowels() {
    assert_eq!("pqrst", disemvowel("pqrst"));
}

#[test]
fn all_vowels() {
    assert_eq!("", disemvowel("aeiouAEIOUOIEAuoiea"));
}

#[test]
fn morris_minnesota() {
    assert_eq!("Mrrs, Mnnst", disemvowel("Morris, Minnesota"));
}

#[test]
fn handle_punctuation() {
    assert_eq!(
        "n (nxplnd) lphnt!",
        disemvowel("An (Unexplained) Elephant!")
    );
}

#[test]
fn handle_unicode() {
    assert_eq!("Sm hrglyphs: 𒐁	𒐌	𒐥	𒑳", disemvowel("Some hieroglyphs: 𒐁	𒐌	𒐥	𒑳"));
    assert_eq!("Sm Lnr B: 	𐂀	𐂚	𐃃	𐃺", disemvowel("Some Linear B: 	𐂀	𐂚	𐃃	𐃺"));
    assert_eq!(" lttl Phncn: 𐤀	𐤈	𐤔	𐤕", disemvowel("A little Phoenician: 𐤀	𐤈	𐤔	𐤕"));
    assert_eq!(
        "W cn hndl mj s wll! 🤣😃👍",
        disemvowel("We can handle emoji as well! 🤣😃👍")
    )
}

#[test]
fn vowel_letters_recognised() {
    for c in "aeiouAEIOU".chars() {
        assert!(is_vowel(c));
    }
    for c in "bcdXYZ09 ,!yYwW🤣é".chars() {
        assert!(!is_vowel(c));
    }
}

#[test]
fn output_is_subsequence() {
    let input = "An (Unexplained) Elephant!";
    let output = disemvowel(input);
    let mut rest = input.chars();
    for c in output.chars() {
        assert!(rest.any(|d| d == c));
    }
}

#[test]
fn output_has_no_vowels() {
    let output = disemvowel("The quick brown fox jumps over the lazy dog");
    assert!(output.chars().all(|c| !is_vowel(c)));
}

#[test]
fn lengths_add_up() {
    let input = "Morris, Minnesota";
    let output = disemvowel(input);
    let vowels = input.chars().filter(|c| is_vowel(*c)).count();
    assert_eq!(output.chars().count() + vowels, input.chars().count());
}

#[test]
fn idempotent() {
    let once = disemvowel("An (Unexplained) Elephant!");
    let twice = disemvowel(&once);
    assert_eq!(once, twice);
}

#[test]
fn symbols_unchanged() {
    assert_eq!("🤣😃👍", disemvowel("🤣😃👍"));
    assert_eq!("𐤀𐤈𐤔𐤕", disemvowel("𐤀𐤈𐤔𐤕"));
    assert_eq!("; -- ;", disemvowel("; -- ;"));
}
