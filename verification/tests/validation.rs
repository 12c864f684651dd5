use cpf_plate::format_cpf;
use cpf_plate::is_cpf_valid;
use cpf_plate::is_plate_valid;
use cpf_plate::normalize_cpf;
use cpf_plate::validate_cpf;
use cpf_plate::validate_plate;
use cpf_plate::AppErrorCode;

#[test]
fn test_validate_cpf() {
    assert!(validate_cpf("123.456.789-09").is_ok(), "123.456.789-09");
    assert!(validate_cpf("529.982.247-25").is_ok(), "529.982.247-25");
    assert!(validate_cpf("52998224725").is_ok(), "52998224725");
    assert!(validate_cpf("12345678909").is_ok(), "12345678909");
    assert!(validate_cpf("871.178.930-73").is_err(), "871.178.930-73");
    assert!(validate_cpf("529.982.247-26").is_err(), "529.982.247-26");
    assert!(validate_cpf("52998224726").is_err(), "52998224726");
    assert!(validate_cpf("529.982.247-2").is_err(), "529.982.247-2");
    assert!(validate_cpf("529.982.247-256").is_err(), "529.982.247-256");
    assert!(validate_cpf("529.982.247-256").is_err(), "529.982.247-256");
    assert!(validate_cpf("529.982.247-25a").is_err(), "529.982.247-25a");
    assert!(validate_cpf("111.111.111-11").is_err(), "111.111.111-11");
}

#[test]
fn test_validate_plate() {
    assert!(validate_plate("ABC1234").is_ok(), "ABC1234");
    assert!(validate_plate("ABC-1234").is_ok(), "ABC-1234");
    assert!(validate_plate("ABC1A23").is_ok(), "ABC1A23");
    assert!(validate_plate("ABC-123").is_err(), "ABC-123");
    assert!(validate_plate("ABC-12345").is_err(), "ABC-12345");
    assert!(validate_plate("ABC-1234A").is_err(), "ABC-1234A");
}

#[test]
fn test_is_cpf_valid() {
    assert!(is_cpf_valid("123.456.789-09"), "123.456.789-09");
    assert!(is_cpf_valid("529.982.247-25"), "529.982.247-25");
    assert!(is_cpf_valid("52998224725"), "52998224725");
    assert!(is_cpf_valid("12345678909"), "12345678909");
    assert!(!is_cpf_valid("871.178.930-73"), "871.178.930-73");
    assert!(!is_cpf_valid("529.982.247-26"), "529.982.247-26");
    assert!(!is_cpf_valid("52998224726"), "52998224726");
    assert!(!is_cpf_valid("529.982.247-2"), "529.982.247-2");
    assert!(!is_cpf_valid("529.982.247-256"), "529.982.247-256");
    assert!(!is_cpf_valid("529.982.247-256"), "529.982.247-256");
    assert!(!is_cpf_valid("529.982.247-25a"), "529.982.247-25a");
    assert!(!is_cpf_valid("111.111.111-11"), "111.111.111-11");
}

#[test]
fn test_is_plate_valid() {
    assert!(is_plate_valid("ABC1234"), "ABC1234");
    assert!(is_plate_valid("ABC-1234"), "ABC-1234");
    assert!(is_plate_valid("ABC1A23"), "ABC1A23");
    assert!(!is_plate_valid("ABC-123"), "ABC-123");
    assert!(!is_plate_valid("ABC-12345"), "ABC-12345");
    assert!(!is_plate_valid("ABC-1234A"), "ABC-1234A");
}

#[test]
fn test_format_cpf() {
    assert_eq!(format_cpf("12345678909").unwrap(), "123.456.789-09", "12345678909");
    assert_eq!(format_cpf("123.456.789-09").unwrap(), "123.456.789-09", "123.456.789-09");
    assert_eq!(format_cpf("52998224725").unwrap(), "529.982.247-25", "52998224725");
    assert_eq!(format_cpf("529.982.247-25").unwrap(), "529.982.247-25", "529.982.247-25");
}

#[test]
fn test_normalize_cpf() {
    assert_eq!(normalize_cpf("529.982.247-25"), "52998224725");
    assert_eq!(normalize_cpf("52998224725"), "52998224725");
    assert_eq!(normalize_cpf(".-.-"), "");
    assert_eq!(normalize_cpf(""), "");
    assert_eq!(normalize_cpf("a.b-c"), "abc");
}

#[test]
fn test_validate_cpf_length_error() {
    let e = validate_cpf("529.982.247-2").unwrap_err();
    assert_eq!(e.code(), AppErrorCode::InvalidCpfLength);
    assert_eq!(e.message(), "CPF deve conter 11 dígitos (comprimento atual: 10)");

    let e = validate_cpf("529.982.247-256").unwrap_err();
    assert_eq!(e.code(), AppErrorCode::InvalidCpfLength);
    assert_eq!(e.message(), "CPF deve conter 11 dígitos (comprimento atual: 12)");

    let e = validate_cpf("").unwrap_err();
    assert_eq!(e.code(), AppErrorCode::InvalidCpfLength);
    assert_eq!(e.message(), "CPF deve conter 11 dígitos (comprimento atual: 0)");
}

#[test]
fn test_validate_cpf_repeated_digits_error() {
    let e = validate_cpf("111.111.111-11").unwrap_err();
    assert_eq!(e.code(), AppErrorCode::InvalidCpf);
    assert_eq!(e.message(), "CPF inválido: 111.111.111-11");

    let e = validate_cpf("22222222222").unwrap_err();
    assert_eq!(e.code(), AppErrorCode::InvalidCpf);
    assert_eq!(e.message(), "CPF inválido: 222.222.222-22");
}

#[test]
fn test_validate_cpf_non_digit_error() {
    let e = validate_cpf("5299822472a").unwrap_err();
    assert_eq!(e.code(), AppErrorCode::InvalidCpf);
    assert_eq!(e.message(), "CPF inválido: 5299822472a");
}

#[test]
fn test_validate_cpf_checksum_error() {
    let e = validate_cpf("529.982.247-26").unwrap_err();
    assert_eq!(e.code(), AppErrorCode::InvalidCpf);
    assert_eq!(e.message(), "CPF inválido: 52998224726");

    let e = validate_cpf("871.178.930-73").unwrap_err();
    assert_eq!(e.code(), AppErrorCode::InvalidCpf);
    assert_eq!(e.message(), "CPF inválido: 87117893073");
}

#[test]
fn test_validate_plate_error() {
    let e = validate_plate("abc1234").unwrap_err();
    assert_eq!(e.code(), AppErrorCode::InvalidPlate);
    assert_eq!(e.message(), "Placa inválida: abc1234");

    let e = validate_plate("AB-1234").unwrap_err();
    assert_eq!(e.code(), AppErrorCode::InvalidPlate);
    assert_eq!(e.message(), "Placa inválida: AB-1234");

    let e = validate_plate("").unwrap_err();
    assert_eq!(e.code(), AppErrorCode::InvalidPlate);
    assert_eq!(e.message(), "Placa inválida: ");
}

#[test]
fn test_format_cpf_length_error() {
    let e = format_cpf("123").unwrap_err();
    assert_eq!(e.code(), AppErrorCode::InvalidCpfLength);
    assert_eq!(e.message(), "CPF deve conter 11 dígitos (comprimento atual: 3)");
}

#[test]
fn test_format_cpf_idempotent() {
    let once = format_cpf("52998224725").unwrap();
    let twice = format_cpf(&once).unwrap();
    assert_eq!(once, "529.982.247-25");
    assert_eq!(twice, once);
}

#[test]
fn test_verdict_ignores_punctuation() {
    assert_eq!(
        validate_cpf("529.982.247-25").is_ok(),
        validate_cpf("52998224725").is_ok(),
    );
    let punctuated = validate_cpf("529.982.247-26").unwrap_err();
    let bare = validate_cpf("52998224726").unwrap_err();
    assert_eq!(punctuated.code(), bare.code());
    assert_eq!(punctuated.message(), bare.message());
}
