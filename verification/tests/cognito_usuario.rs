use chrono::DateTime;
use fastfood_auth::base::domain_error::DomainError;
use fastfood_auth::entities::cpf::Cpf;
use fastfood_auth::entities::usuario::{Status, Tipo, Usuario};
use fastfood_auth::gateways::aws_cognito_usuario_gateway::{
    admin_to_create, check_for_usuario_admin, create_usuario, create_usuario_request,
    default_admin, delete_usuario, delete_usuario_request, get_usuario_by_cpf,
    get_usuario_by_id, get_usuarios, read_usuario, update_usuario, update_usuario_request,
    usuario_attributes,
};
use fastfood_auth::gateways::directory::{Attribute, DirectoryFailure};

fn attribute(name: &str, value: &str) -> Attribute {
    Attribute { name: name.to_string(), value: Some(value.to_string()) }
}

fn record(id: &str, cpf: &str, tipo: &str, status: &str) -> Vec<Attribute> {
    vec![
        attribute("custom:id", id),
        attribute("custom:nome", "Fulano da Silva"),
        attribute("custom:email", "fulano.silva@exemplo.com"),
        attribute("custom:cpf", cpf),
        attribute("custom:senha", "senha_segura"),
        attribute("custom:tipo", tipo),
        attribute("custom:status", status),
        attribute("custom:data_criacao", "2024-02-18 10:20:30.123+0000"),
        attribute("custom:data_atualizacao", "2024-02-19 10:20:30.123+0000"),
    ]
}

fn fulano(id: usize, cpf: &str, tipo: Tipo, status: Status) -> Usuario {
    Usuario::new(
        id,
        "Fulano da Silva".to_string(),
        "fulano.silva@exemplo.com".to_string(),
        Cpf::new(cpf.to_string()).unwrap(),
        "senha_segura".to_string(),
        tipo,
        status,
        "2024-02-18 10:20:30.123+0000".to_string(),
        "2024-02-19 10:20:30.123+0000".to_string(),
    )
}

fn admin_cpf() -> Cpf {
    Cpf::new("000.000.000-00".to_string()).unwrap()
}

#[test]
fn test_get_usuarios_reads_every_well_formed_record() {
    let listed = get_usuarios(Ok(vec![
        record("1", "123.456.789-09", "Admin", "Ativo"),
        record("2", "987.654.321-00", "Cozinha", "Inativo"),
    ]))
    .unwrap();
    assert_eq!(listed.len(), 2);
    assert!(listed[0] == fulano(1, "123.456.789-09", Tipo::Admin, Status::Ativo));
    assert!(listed[1] == fulano(2, "987.654.321-00", Tipo::Cozinha, Status::Inativo));
    assert!(get_usuarios(Ok(vec![])).unwrap().is_empty());
}

#[test]
fn test_get_usuarios_skips_malformed_records() {
    let good_one = record("1", "123.456.789-09", "Admin", "Ativo");
    let good_two = record("2", "987.654.321-00", "Cozinha", "Inativo");
    let malformed = [
        record("3", "11111111111", "Admin", "Ativo"),
        record("3", "111.111.111-11", "admin", "Ativo"),
        record("3", "111.111.111-11", "Gerente", "Ativo"),
        record("3", "111.111.111-11", "Admin", "Suspenso"),
        record("3", "111.111.111-11", "Admin", ""),
        record("3.0", "111.111.111-11", "Admin", "Ativo"),
        record("", "111.111.111-11", "Admin", "Ativo"),
        vec![],
    ];
    for bad in malformed {
        assert!(read_usuario(&bad).is_none());
        for position in 0..3 {
            let mut records = vec![good_one.clone(), good_two.clone()];
            records.insert(position, bad.clone());
            let listed = get_usuarios(Ok(records)).unwrap();
            assert_eq!(listed.len(), 2);
            assert!(listed[0] == fulano(1, "123.456.789-09", Tipo::Admin, Status::Ativo));
            assert!(listed[1] == fulano(2, "987.654.321-00", Tipo::Cozinha, Status::Inativo));
        }
    }
}

#[test]
fn test_every_failure_of_the_directory_is_invalid_for_usuarios() {
    let failures = [
        DirectoryFailure::Service,
        DirectoryFailure::Timeout,
        DirectoryFailure::Dispatch,
        DirectoryFailure::Response,
        DirectoryFailure::Other,
    ];
    let usuario = fulano(1, "123.456.789-09", Tipo::Admin, Status::Ativo);
    for failure in failures {
        let invalid = DomainError::Invalid("Usuario".to_string());
        assert_eq!(get_usuarios(Err(failure)).unwrap_err(), invalid);
        assert_eq!(create_usuario(usuario.clone(), Err(failure)).unwrap_err(), invalid);
        assert_eq!(update_usuario(usuario.clone(), Err(failure)).unwrap_err(), invalid);
        assert_eq!(delete_usuario(Err(failure)), Err(DomainError::Invalid("Usuario".to_string())));
        let by_cpf = get_usuario_by_cpf(get_usuarios(Err(failure)), admin_cpf());
        assert_eq!(by_cpf.unwrap_err(), invalid);
        assert_eq!(get_usuario_by_id(get_usuarios(Err(failure)), 1).unwrap_err(), invalid);
    }
    assert!(create_usuario(usuario.clone(), Ok(())).unwrap() == usuario);
    assert!(update_usuario(usuario.clone(), Ok(())).unwrap() == usuario);
    assert_eq!(delete_usuario(Ok(())), Ok(()));
}

#[test]
fn test_lookups_pick_the_first_match() {
    let first = fulano(1, "123.456.789-09", Tipo::Admin, Status::Ativo);
    let second = fulano(2, "987.654.321-00", Tipo::Cozinha, Status::Inativo);
    let shadowed = fulano(1, "987.654.321-00", Tipo::Admin, Status::Ativo);
    let listing = vec![first.clone(), second.clone(), shadowed];

    let cpf = Cpf::new("987.654.321-00".to_string()).unwrap();
    assert!(get_usuario_by_cpf(Ok(listing.clone()), cpf).unwrap() == second);
    assert!(get_usuario_by_id(Ok(listing.clone()), 1).unwrap() == first);
    assert!(get_usuario_by_id(Ok(listing.clone()), 2).unwrap() == second);
    assert_eq!(get_usuario_by_id(Ok(listing.clone()), 3).unwrap_err(), DomainError::NotFound);
    assert_eq!(get_usuario_by_cpf(Ok(listing), admin_cpf()).unwrap_err(), DomainError::NotFound);
    assert_eq!(
        get_usuario_by_cpf(Err(DomainError::Unauthorized), admin_cpf()).unwrap_err(),
        DomainError::Unauthorized
    );
}

#[test]
fn test_usuario_attributes_are_built_in_order() {
    let usuario = fulano(77, "123.456.789-09", Tipo::Cozinha, Status::Inativo);
    let written: Vec<(String, Option<String>)> = usuario_attributes(&usuario)
        .iter()
        .map(|a| (a.name.clone(), a.value.clone()))
        .collect();
    let expected: Vec<(String, Option<String>)> = [
        ("custom:id", "12345678909"),
        ("custom:nome", "Fulano da Silva"),
        ("custom:email", "fulano.silva@exemplo.com"),
        ("custom:cpf", "123.456.789-09"),
        ("custom:senha", "senha_segura"),
        ("custom:tipo", "Cozinha"),
        ("custom:status", "Inativo"),
        ("custom:data_criacao", "2024-02-18 10:20:30.123+0000"),
        ("custom:data_atualizacao", "2024-02-19 10:20:30.123+0000"),
    ]
    .iter()
    .map(|(name, value)| (name.to_string(), Some(value.to_string())))
    .collect();
    assert_eq!(written, expected);
}

#[test]
fn test_usuario_requests_go_under_the_digits_of_the_cpf() {
    let usuario = fulano(77, "123.456.789-09", Tipo::Cozinha, Status::Inativo);
    let request = create_usuario_request(&usuario);
    assert_eq!(request.username, "12345678909");
    assert_eq!(request.temporary_password, "12345678909");
    assert_eq!(request.user_attributes.len(), 9);

    let request = update_usuario_request(&usuario);
    assert_eq!(request.username, "12345678909");
    assert_eq!(request.user_attributes.len(), 9);
    assert_eq!(request.user_attributes[5].value, Some("Cozinha".to_string()));

    let request = delete_usuario_request(Ok(vec![usuario.clone()]), usuario.cpf()).unwrap();
    assert_eq!(request.username, "12345678909");
}

#[test]
fn test_delete_usuario_that_the_directory_does_not_hold() {
    let cpf = Cpf::new("123.456.789-09".to_string()).unwrap();
    assert_eq!(delete_usuario_request(Ok(vec![]), &cpf).unwrap_err(), DomainError::NotFound);
    let other = fulano(2, "987.654.321-00", Tipo::Cozinha, Status::Inativo);
    assert_eq!(
        delete_usuario_request(Ok(vec![other.clone()]), &cpf).unwrap_err(),
        DomainError::NotFound
    );
    let listed = get_usuarios(Ok(vec![usuario_attributes(&other)]));
    assert_eq!(delete_usuario_request(listed, &cpf).unwrap_err(), DomainError::NotFound);
}

#[test]
fn test_delete_usuario_after_a_failed_listing() {
    let cpf = Cpf::new("123.456.789-09".to_string()).unwrap();
    let failed = get_usuarios(Err(DirectoryFailure::Dispatch));
    assert_eq!(
        delete_usuario_request(failed, &cpf).unwrap_err(),
        DomainError::Invalid("Usuario".to_string())
    );
}

#[test]
fn test_usuario_written_then_read() {
    let usuario = fulano(77, "123.456.789-09", Tipo::Cozinha, Status::Inativo);
    let read = read_usuario(&usuario_attributes(&usuario)).unwrap();
    assert!(read == fulano(12345678909, "123.456.789-09", Tipo::Cozinha, Status::Inativo));

    let listed = get_usuarios(Ok(vec![usuario_attributes(&usuario)])).unwrap();
    assert!(get_usuario_by_cpf(Ok(listed.clone()), usuario.cpf().clone()).unwrap() == read);
    assert!(get_usuario_by_id(Ok(listed), 12345678909).unwrap() == read);
}

#[test]
fn test_default_admin() {
    let admin = default_admin("2024-02-18 10:20:30.123+0000".to_string());
    assert_eq!(admin.id(), &0);
    assert_eq!(admin.nome(), "Administrador");
    assert_eq!(admin.email(), "admin@fastfood.com.br");
    assert_eq!(admin.cpf().value(), "000.000.000-00");
    assert!(admin.validate_senha(&"melhor_projeto".to_string()));
    assert_eq!(admin.tipo(), &Tipo::Admin);
    assert_eq!(admin.status(), &Status::Ativo);
    assert_eq!(admin.data_criacao(), "2024-02-18 10:20:30.123+0000");
    assert_eq!(admin.data_atualizacao(), "2024-02-18 10:20:30.123+0000");
    assert!(admin.validate_entity().is_ok());
}

#[test]
fn test_admin_to_create() {
    let now = "2024-02-18 10:20:30.123+0000".to_string();
    let found = Ok(default_admin(now.clone()));
    assert!(admin_to_create(&found, now.clone()).is_none());
    let created = admin_to_create(&Err(DomainError::NotFound), now.clone()).unwrap();
    assert!(created == default_admin(now.clone()));
    for error in [
        DomainError::Invalid("Usuario".to_string()),
        DomainError::Invalid(String::new()),
        DomainError::Unauthorized,
        DomainError::AlreadyExists,
        DomainError::Empty,
        DomainError::NonPositive,
    ] {
        assert!(admin_to_create(&Err(error), now.clone()).is_none());
    }
}

#[test]
fn test_check_for_usuario_admin_stamps_the_present_moment() {
    let admin = check_for_usuario_admin(Ok(vec![])).unwrap();
    assert_eq!(admin.data_criacao(), admin.data_atualizacao());
    assert!(DateTime::parse_from_str(admin.data_criacao(), "%Y-%m-%d %H:%M:%S%.3f%z").is_ok());
    assert!(admin.validate_entity().is_ok());
    assert!(admin == default_admin(admin.data_criacao().clone()));

}

#[test]
fn test_check_for_usuario_admin_creates_nothing_after_a_failed_listing() {
    for failure in [
        DirectoryFailure::Service,
        DirectoryFailure::Timeout,
        DirectoryFailure::Dispatch,
        DirectoryFailure::Response,
        DirectoryFailure::Other,
    ] {
        assert!(check_for_usuario_admin(Err(failure)).is_none());
    }
}

#[test]
fn test_check_for_usuario_admin_twice_leaves_one_admin() {
    let mut directory: Vec<Vec<Attribute>> = Vec::new();
    for _ in 0..2 {
        if let Some(admin) = check_for_usuario_admin(Ok(directory.clone())) {
            let request = create_usuario_request(&admin);
            assert_eq!(request.username, "00000000000");
            directory.push(request.user_attributes);
        }
    }
    assert_eq!(directory.len(), 1);
    let listed = get_usuarios(Ok(directory.clone())).unwrap();
    assert_eq!(listed.len(), 1);
    assert_eq!(listed[0].id(), &0);
    assert_eq!(listed[0].tipo(), &Tipo::Admin);
    assert_eq!(listed[0].cpf().value(), "000.000.000-00");
    assert!(check_for_usuario_admin(Ok(directory)).is_none());
}

#[test]
fn test_check_for_usuario_admin_beside_other_accounts() {
    let others = vec![
        record("1", "123.456.789-09", "Admin", "Ativo"),
        record("0", "000.000.000-00", "Chefe", "Ativo"),
    ];
    assert!(check_for_usuario_admin(Ok(others.clone())).is_some());

    let mut with_admin = others;
    with_admin.push(record("0", "000.000.000-00", "Cozinha", "Inativo"));
    assert!(check_for_usuario_admin(Ok(with_admin)).is_none());
}

#[test]
fn test_usuario_written_is_found_wherever_its_record_stands() {
    let usuario = fulano(77, "123.456.789-09", Tipo::Cozinha, Status::Inativo);
    let read = fulano(12345678909, "123.456.789-09", Tipo::Cozinha, Status::Inativo);
    let others = vec![
        record("1", "987.654.321-00", "Admin", "Ativo"),
        record("x", "123.456.789-09", "Admin", "Ativo"),
        record("2", "111.111.111-11", "Admin", "Ativo"),
    ];
    for position in 0..4 {
        let mut records = others.clone();
        records.insert(position, usuario_attributes(&usuario));
        let listed = get_usuarios(Ok(records)).unwrap();
        assert_eq!(listed.len(), 3);
        assert!(get_usuario_by_cpf(Ok(listed.clone()), usuario.cpf().clone()).unwrap() == read);
        assert!(get_usuario_by_id(Ok(listed), 12345678909).unwrap() == read);
    }
}
