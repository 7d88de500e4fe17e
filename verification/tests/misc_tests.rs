use icn_core::currency::CurrencyType;
use icn_core::error::{CustomError, Error, ShardingError};
use icn_core::string_map::StringMap;
use icn_core::vm::{CoopVM, Value};
use icn_core::cscl::token::Opcode;

#[test]
fn errors_show_their_subsystem() {
    assert_eq!(Error::ShardingError("x".to_string()).message(), "Sharding error: x");
    assert_eq!(Error::VmError("halt".to_string()).message(), "VM error: halt");
    assert!(!Error::NetworkError("n".to_string()).has_source());
    let io = std::io::Error::new(std::io::ErrorKind::Other, "disk");
    let e: Error = io.into();
    assert!(e.has_source());
    assert_eq!(e.message(), "I/O error: disk");
    assert_eq!(CustomError("plain".to_string()).message(), "plain");
    assert_eq!(ShardingError::ShardNotFound(12).message(), "Shard not found: 12");
    assert_eq!(
        ShardingError::InsufficientBalance("Sender not found".to_string()).message(),
        "Insufficient balance: Sender not found"
    );
}

#[test]
fn currency_kinds_are_written_by_name() {
    assert_eq!(CurrencyType::BasicNeeds.to_display_string(), "BasicNeeds");
    assert_eq!(CurrencyType::Custom("Seeds".to_string()).to_display_string(), "Custom(Seeds)");
    assert!(CurrencyType::Energy.same_as(&CurrencyType::Energy));
    assert!(!CurrencyType::Custom("A".to_string()).same_as(&CurrencyType::Custom("B".to_string())));
}

#[test]
fn string_map_reads_back_writes() {
    let mut m: StringMap<u32> = StringMap::new();
    assert_eq!(m.insert("a".to_string(), 1), None);
    assert_eq!(m.insert("b".to_string(), 2), None);
    assert_eq!(m.insert("a".to_string(), 3), Some(1));
    assert_eq!(m.get(&"a".to_string()), Some(&3));
    assert_eq!(m.len(), 2);
    assert_eq!(m.key_at(0), "a");
    assert_eq!(m.remove(&"a".to_string()), Some(3));
    assert_eq!(m.get(&"a".to_string()), None);
    assert_eq!(m.remove(&"a".to_string()), None);
    assert_eq!(m.len(), 1);
}

#[test]
fn machine_runs_to_the_end_of_its_program() {
    let mut vm = CoopVM::new(vec![Opcode::Store("x".to_string()), Opcode::Return]);
    assert_eq!(vm.run(), Ok(()));
    assert!(vm.get_stack().is_empty());
    assert!(vm.get_memory().is_empty());
    vm.load_program(vec![]);
    assert_eq!(vm.run(), Ok(()));
    let v = Value::Float(1.5f64.to_bits());
    assert_eq!(v, Value::Float(1.5f64.to_bits()));
}

#[test]
fn custom_currencies_are_created_once() {
    let existing = vec![
        icn_core::currency::CurrencyType::BasicNeeds,
        icn_core::currency::CurrencyType::Custom("Seeds".to_string()),
    ];
    assert_eq!(
        icn_core::currency::new_custom_currency("Seeds", &existing),
        Err("Currency 'Seeds' already exists".to_string())
    );
    assert_eq!(
        icn_core::currency::new_custom_currency("Tools", &existing),
        Ok(icn_core::currency::CurrencyType::Custom("Tools".to_string()))
    );
}
