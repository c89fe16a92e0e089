use calabaza_tales::text::{contains_char, contains_str, decimal_string, normalize_id};

#[test]
fn identifiers_are_normalized() {
    assert_eq!(normalize_id("Zombie"), "minecraft:zombie");
    assert_eq!(normalize_id("minecraft:Iron_Ore"), "minecraft:iron_ore");
}

#[test]
fn normalize_trims_and_replaces_spaces() {
    assert_eq!(normalize_id("  Iron Ore \t"), "minecraft:iron_ore");
    assert_eq!(normalize_id("\u{3000}Zombie\u{00A0}\n"), "minecraft:zombie");
    assert_eq!(normalize_id("Diamond  Sword"), "minecraft:diamond__sword");
}

#[test]
fn normalize_keeps_a_named_namespace() {
    assert_eq!(normalize_id("MyMod:Some Block"), "mymod:some_block");
    assert_eq!(normalize_id(":x"), ":x");
}

#[test]
fn normalize_empty_and_blank() {
    assert_eq!(normalize_id(""), "minecraft:");
    assert_eq!(normalize_id("   "), "minecraft:");
}

#[test]
fn normalize_lowercases_ascii_only() {
    assert_eq!(normalize_id("ÉCLAIR"), "minecraft:Éclair");
}

#[test]
fn normalize_is_idempotent_on_examples() {
    for raw in ["Zombie", "  Iron Ore ", "mod:Thing", "", "a\tb", "Wither Skeleton"] {
        let once = normalize_id(raw);
        assert_eq!(normalize_id(&once), once);
        assert!(once.contains(':'));
    }
}

#[test]
fn decimal_strings() {
    assert_eq!(decimal_string(0), "0");
    assert_eq!(decimal_string(7), "7");
    assert_eq!(decimal_string(10), "10");
    assert_eq!(decimal_string(1234567890), "1234567890");
    assert_eq!(decimal_string(u64::MAX), u64::MAX.to_string());
}

#[test]
fn substring_search() {
    assert!(contains_str("minecraft:diamond_chestplate", "chestplate"));
    assert!(contains_str("abc", ""));
    assert!(!contains_str("ab", "abc"));
    assert!(!contains_str("minecraft:stone", "iron"));
    assert!(contains_char("a:b", ':'));
    assert!(!contains_char("ab", ':'));
}

#[test]
fn case_and_padding_do_not_change_an_identifier() {
    for value in ["Stone", "minecraft:Oak Log", "ZOMBIE", "mod:Thing_1", ""] {
        assert_eq!(normalize_id(&value.to_ascii_uppercase()), normalize_id(value));
        assert_eq!(normalize_id(&format!("  {value} ")), normalize_id(value));
        assert_eq!(normalize_id(&format!("\t{value}\n")), normalize_id(value));
    }
}
