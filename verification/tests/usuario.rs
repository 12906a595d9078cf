use chrono::Utc;
use fastfood_auth::base::domain_error::DomainError;
use fastfood_auth::entities::cpf::Cpf;
use fastfood_auth::entities::usuario::{Status, Tipo, Usuario};

fn create_valid_usuario(now: Option<String>) -> Usuario {
    let now: String =
        now.unwrap_or_else(|| Utc::now().format("%Y-%m-%d %H:%M:%S%.3f%z").to_string());
    Usuario::new(
        1,
        "Fulano da Silva".to_string(),
        "fulano.silva@exemplo.com".to_string(),
        Cpf::new("123.456.789-09".to_string()).unwrap(),
        "senha_segura".to_string(),
        Tipo::Admin,
        Status::Ativo,
        now.clone(),
        now,
    )
}

#[test]
fn test_usuario_creation_valid() {
    let now = Utc::now().format("%Y-%m-%d %H:%M:%S%.3f%z").to_string();
    let usuario = create_valid_usuario(Some(now.clone()));
    assert_eq!(usuario.id(), &1);
    assert_eq!(usuario.nome(), "Fulano da Silva");
    assert_eq!(usuario.email(), "fulano.silva@exemplo.com");
    assert_eq!(usuario.tipo(), &Tipo::Admin);
    assert_eq!(usuario.status(), &Status::Ativo);
    assert_eq!(usuario.senha(), "senha_segura");
    assert_eq!(*usuario.cpf().value(), "123.456.789-09".to_string());
    assert_eq!(*usuario.data_criacao(), now.clone());
    assert_eq!(*usuario.data_atualizacao(), now);
}

#[test]
fn test_usuario_validate_entity_valid() {
    let usuario = create_valid_usuario(None);
    assert!(usuario.validate_entity().is_ok());
}

#[test]
fn test_usuario_setters_valid() {
    let mut usuario = create_valid_usuario(None);
    let _ = usuario.set_nome("Ciclano de Almeida".to_string());
    let _ = usuario.set_email("ciclano.almeida@exemplo.com".to_string());
    let _ = usuario.set_senha("nova_senha_segura".to_string());
    usuario.set_tipo(Tipo::Cozinha);
    usuario.set_status(Status::Inativo);
    let _ = usuario.set_cpf(Cpf::new("000.000.000-00".to_string()).unwrap());
    assert_eq!(usuario.nome(), "Ciclano de Almeida");
    assert_eq!(usuario.email(), "ciclano.almeida@exemplo.com");
    assert!(usuario.validate_senha(&"nova_senha_segura".to_string()));
    assert_eq!(usuario.tipo(), &Tipo::Cozinha);
    assert_eq!(usuario.status(), &Status::Inativo);
    assert_eq!(*usuario.cpf().value(), "000.000.000-00".to_string());
}

#[test]
fn test_usuario_set_nome_empty() {
    let mut usuario = create_valid_usuario(None);
    let result = usuario.set_nome("".to_string());
    assert!(
        matches!(result, Err(DomainError::Empty)),
        "Esperado Err(DomainError::Empty), obtido {:?}",
        result
    );
}

#[test]
fn test_usuario_set_email_empty() {
    let mut usuario = create_valid_usuario(None);
    let result = usuario.set_email("".to_string());
    assert!(
        matches!(result, Err(DomainError::Empty)),
        "Esperado Err(DomainError::Empty), obtido {:?}",
        result
    );
}

#[test]
fn test_usuario_set_senha_empty() {
    let mut usuario = create_valid_usuario(None);
    let result = usuario.set_senha("".to_string());
    assert!(
        matches!(result, Err(DomainError::Empty)),
        "Esperado Err(DomainError::Empty), obtido {:?}",
        result
    );
}

#[test]
fn test_usuario_set_data_atualizacao_valid_format() {
    let mut usuario = create_valid_usuario(None);
    let now = Utc::now().format("%Y-%m-%d %H:%M:%S%.3f%z").to_string();
    let _ = usuario.set_data_atualizacao(now.clone());
    assert_eq!(*usuario.data_atualizacao(), now);
}

#[test]
fn test_usuario_set_data_atualizacao_invalid_format() {
    let mut usuario = create_valid_usuario(None);
    let result = usuario.set_data_atualizacao("18-02-2024".to_string());
    assert!(
        matches!(result, Err(DomainError::Invalid(_))),
        "Esperado Err(DomainError::Invalid), obtido {:?}",
        result
    );
}

#[test]
fn test_status_from_str() {
    let mut test_status = Status::from_str("Ativo").unwrap();
    assert_eq!(test_status, Status::Ativo);

    test_status = Status::from_str("Inativo").unwrap();
    assert_eq!(test_status, Status::Inativo);

    let test_status = Status::from_str("Invalid");
    assert_eq!(test_status, Err(()));
}

#[test]
fn test_display_ativo() {
    let status = Status::Ativo;
    assert_eq!(status.to_string(), "Ativo");
}

#[test]
fn test_display_inativo() {
    let status = Status::Inativo;
    assert_eq!(status.to_string(), "Inativo");
}

#[test]
fn test_tipo_from_str() {
    let mut test_tipo = Tipo::from_str("Admin").unwrap();
    assert_eq!(test_tipo, Tipo::Admin);

    test_tipo = Tipo::from_str("Cozinha").unwrap();
    assert_eq!(test_tipo, Tipo::Cozinha);

    let test_tipo = Tipo::from_str("Invalid");
    assert_eq!(test_tipo, Err(()));
}

#[test]
fn test_display_admin() {
    let tipo = Tipo::Admin;
    assert_eq!(tipo.to_string(), "Admin");
}

#[test]
fn test_display_cozinha() {
    let tipo = Tipo::Cozinha;
    assert_eq!(tipo.to_string(), "Cozinha");
}

#[test]
fn test_usuario_setters_leave_the_account_alone_on_error() {
    let mut usuario = create_valid_usuario(None);
    let before = usuario.clone();
    assert_eq!(usuario.set_nome(String::new()), Err(DomainError::Empty));
    assert_eq!(usuario.set_email(String::new()), Err(DomainError::Empty));
    assert_eq!(usuario.set_senha(String::new()), Err(DomainError::Empty));
    assert_eq!(
        usuario.set_data_atualizacao("2024-02-18".to_string()),
        Err(DomainError::Invalid("Timestamp".to_string()))
    );
    assert!(usuario == before);
}

#[test]
fn test_usuario_validate_entity_reports_first_fault() {
    let cpf = Cpf::new("123.456.789-09".to_string()).unwrap();
    let good = "2024-02-18 10:20:30.123+0000".to_string();
    let empty_email = Usuario::new(
        1,
        "Fulano".to_string(),
        String::new(),
        cpf.clone(),
        "senha".to_string(),
        Tipo::Cozinha,
        Status::Inativo,
        "yesterday".to_string(),
        good.clone(),
    );
    assert_eq!(empty_email.validate_entity(), Err(DomainError::Empty));
    let bad_stamp = Usuario::new(
        1,
        "Fulano".to_string(),
        "fulano@exemplo.com".to_string(),
        cpf,
        "senha".to_string(),
        Tipo::Cozinha,
        Status::Inativo,
        good.clone(),
        "2021-01-01T00:00:00Z".to_string(),
    );
    assert_eq!(
        bad_stamp.validate_entity(),
        Err(DomainError::Invalid("Timestamp".to_string()))
    );
}

#[test]
fn test_names_are_parsed_through_the_standard_trait() {
    assert_eq!("Ativo".parse::<Status>(), Ok(Status::Ativo));
    assert_eq!("Inativo".parse::<Status>(), Ok(Status::Inativo));
    assert_eq!("ativo".parse::<Status>(), Err(()));
    assert_eq!("Admin".parse::<Tipo>(), Ok(Tipo::Admin));
    assert_eq!("Cozinha".parse::<Tipo>(), Ok(Tipo::Cozinha));
    assert_eq!("".parse::<Tipo>(), Err(()));
}
