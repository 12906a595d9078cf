use fastfood_auth::base::domain_error::DomainError;
use fastfood_auth::entities::cliente::Cliente;
use fastfood_auth::entities::cpf::Cpf;
use fastfood_auth::entities::usuario::{Status, Tipo, Usuario};
use fastfood_auth::gateways::in_memory_cliente_gateway::InMemoryClienteRepository;
use fastfood_auth::gateways::in_memory_usuario_gateway::InMemoryUsuarioRepository;

fn cpf(text: &str) -> Cpf {
    Cpf::new(text.to_string()).unwrap()
}

fn cliente(nome: &str, cpf_text: &str) -> Cliente {
    Cliente::new(
        0,
        nome.to_string(),
        format!("{}@ex.com", nome.to_lowercase()),
        cpf(cpf_text),
        "2024-02-18 10:20:30.123+0000".to_string(),
        "2024-02-18 10:20:30.123+0000".to_string(),
    )
}

fn usuario(nome: &str, cpf_text: &str) -> Usuario {
    Usuario::new(
        0,
        nome.to_string(),
        format!("{}@ex.com", nome.to_lowercase()),
        cpf(cpf_text),
        "senha".to_string(),
        Tipo::Cozinha,
        Status::Ativo,
        "2024-02-18 10:20:30.123+0000".to_string(),
        "2024-02-19 10:20:30.123+0000".to_string(),
    )
}

#[test]
fn test_create_cliente_then_get_by_cpf() {
    let mut repository = InMemoryClienteRepository::new();
    let created = repository.create_cliente(cliente("Joana", "123.456.789-09")).unwrap();
    assert_eq!(created.id(), &1);

    let found = repository.get_cliente_by_cpf(cpf("123.456.789-09")).unwrap();
    assert_eq!(found.id(), &1);
    assert_eq!(found.nome(), "Joana");
    assert_eq!(found.email(), "joana@ex.com");
    assert_eq!(found.data_criacao(), found.data_atualizacao());
    assert!(found == created);
    assert!(repository.get_cliente_by_id(1).unwrap() == created);
}

#[test]
fn test_in_memory_cliente_identifiers_grow_and_are_not_reused() {
    let mut repository = InMemoryClienteRepository::new();
    assert!(repository.get_clientes().unwrap().is_empty());
    assert_eq!(repository.create_cliente(cliente("Ana", "111.111.111-11")).unwrap().id(), &1);
    assert_eq!(repository.create_cliente(cliente("Bia", "222.222.222-22")).unwrap().id(), &2);
    assert_eq!(repository.delete_cliente(cpf("222.222.222-22")), Ok(()));
    assert_eq!(repository.create_cliente(cliente("Caio", "333.333.333-33")).unwrap().id(), &3);
    assert_eq!(repository.delete_cliente(cpf("111.111.111-11")), Ok(()));
    assert_eq!(repository.create_cliente(cliente("Bia", "222.222.222-22")).unwrap().id(), &4);

    let listed = repository.get_clientes().unwrap();
    let ids: Vec<usize> = listed.iter().map(|c| *c.id()).collect();
    let names: Vec<String> = listed.iter().map(|c| c.nome().clone()).collect();
    assert_eq!(ids, vec![3, 4]);
    assert_eq!(names, vec!["Caio".to_string(), "Bia".to_string()]);
}

#[test]
fn test_in_memory_cliente_duplicate_cpf() {
    let mut repository = InMemoryClienteRepository::new();
    let first = repository.create_cliente(cliente("Ana", "111.111.111-11")).unwrap();
    assert_eq!(
        repository.create_cliente(cliente("Impostora", "111.111.111-11")),
        Err(DomainError::AlreadyExists)
    );
    let listed = repository.get_clientes().unwrap();
    assert_eq!(listed.len(), 1);
    assert!(listed[0] == first);
    assert_eq!(repository.create_cliente(cliente("Bia", "222.222.222-22")).unwrap().id(), &2);
}

#[test]
fn test_in_memory_cliente_not_found() {
    let mut repository = InMemoryClienteRepository::new();
    assert_eq!(repository.delete_cliente(cpf("111.111.111-11")), Err(DomainError::NotFound));
    assert_eq!(
        repository.get_cliente_by_cpf(cpf("111.111.111-11")),
        Err(DomainError::NotFound)
    );
    assert_eq!(repository.get_cliente_by_id(1), Err(DomainError::NotFound));

    repository.create_cliente(cliente("Ana", "111.111.111-11")).unwrap();
    assert_eq!(repository.get_cliente_by_id(0), Err(DomainError::NotFound));
    assert_eq!(repository.get_cliente_by_id(2), Err(DomainError::NotFound));
    assert_eq!(repository.delete_cliente(cpf("111.111.111-11")), Ok(()));
    assert_eq!(
        repository.get_cliente_by_cpf(cpf("111.111.111-11")),
        Err(DomainError::NotFound)
    );
    assert_eq!(repository.get_cliente_by_id(1), Err(DomainError::NotFound));
    assert_eq!(repository.delete_cliente(cpf("111.111.111-11")), Err(DomainError::NotFound));
}

#[test]
fn test_in_memory_usuario_create_and_lookups() {
    let mut repository = InMemoryUsuarioRepository::new();
    let submitted = usuario("Ana", "111.111.111-11");
    let created = repository.create_usuario(submitted.clone()).unwrap();
    assert_eq!(created.id(), &1);
    assert_eq!(created.nome(), submitted.nome());
    assert_eq!(created.email(), submitted.email());
    assert!(created.cpf() == submitted.cpf());
    assert_eq!(created.senha(), submitted.senha());
    assert_eq!(created.tipo(), submitted.tipo());
    assert_eq!(created.status(), submitted.status());
    assert_eq!(created.data_criacao(), submitted.data_criacao());
    assert_eq!(created.data_atualizacao(), submitted.data_atualizacao());

    assert!(repository.get_usuario_by_cpf(cpf("111.111.111-11")).unwrap() == created);
    assert!(repository.get_usuario_by_id(1).unwrap() == created);
    assert_eq!(
        repository.create_usuario(usuario("Outra", "111.111.111-11")),
        Err(DomainError::AlreadyExists)
    );
    assert_eq!(repository.get_usuarios().unwrap().len(), 1);
}

#[test]
fn test_in_memory_usuario_update() {
    let mut repository = InMemoryUsuarioRepository::new();
    let ana = repository.create_usuario(usuario("Ana", "111.111.111-11")).unwrap();
    let bia = repository.create_usuario(usuario("Bia", "222.222.222-22")).unwrap();

    let mut changed = ana.clone();
    changed.set_nome("Ana Maria".to_string()).unwrap();
    changed.set_tipo(Tipo::Admin);
    changed.set_status(Status::Inativo);
    changed.set_cpf(cpf("333.333.333-33"));
    assert!(repository.update_usuario(changed.clone()).unwrap() == changed);
    assert!(repository.get_usuario_by_id(1).unwrap() == changed);
    assert!(repository.get_usuario_by_cpf(cpf("333.333.333-33")).unwrap() == changed);
    assert_eq!(
        repository.get_usuario_by_cpf(cpf("111.111.111-11")),
        Err(DomainError::NotFound)
    );
    assert!(repository.get_usuario_by_id(2).unwrap() == bia);

    let mut thief = changed.clone();
    thief.set_cpf(cpf("222.222.222-22"));
    assert_eq!(repository.update_usuario(thief), Err(DomainError::AlreadyExists));
    assert!(repository.get_usuario_by_id(1).unwrap() == changed);

    let mut stranger = changed.clone();
    stranger.set_id(9);
    assert_eq!(repository.update_usuario(stranger), Err(DomainError::NotFound));
    assert_eq!(repository.get_usuarios().unwrap().len(), 2);
}

#[test]
fn test_in_memory_usuario_delete() {
    let mut repository = InMemoryUsuarioRepository::new();
    assert_eq!(repository.delete_usuario(cpf("111.111.111-11")), Err(DomainError::NotFound));
    repository.create_usuario(usuario("Ana", "111.111.111-11")).unwrap();
    let bia = repository.create_usuario(usuario("Bia", "222.222.222-22")).unwrap();
    repository.create_usuario(usuario("Caio", "333.333.333-33")).unwrap();

    assert_eq!(repository.delete_usuario(cpf("111.111.111-11")), Ok(()));
    assert_eq!(
        repository.get_usuario_by_cpf(cpf("111.111.111-11")),
        Err(DomainError::NotFound)
    );
    assert_eq!(repository.delete_usuario(cpf("111.111.111-11")), Err(DomainError::NotFound));
    let listed = repository.get_usuarios().unwrap();
    assert_eq!(listed.len(), 2);
    assert!(listed[0] == bia);
    assert_eq!(listed[1].id(), &3);
    assert_eq!(repository.create_usuario(usuario("Ana", "111.111.111-11")).unwrap().id(), &4);
}
