use fastfood_auth::base::domain_error::DomainError;
use fastfood_auth::entities::cliente::Cliente;
use fastfood_auth::entities::cpf::Cpf;
use fastfood_auth::entities::usuario::{Status, Tipo, Usuario};
use fastfood_auth::external::postgres::cliente;
use fastfood_auth::external::postgres::cliente::{get_cliente_table_columns, ClienteRow};
use fastfood_auth::external::postgres::get_tables;
use fastfood_auth::external::postgres::table::{
    changed, failure_to_error, id_parameter, read_row_id, SqlFailure, Table, TablesNames,
};
use fastfood_auth::external::postgres::usuario;
use fastfood_auth::external::postgres::usuario::{get_usuario_table_columns, UsuarioRow};

fn usuario_row(id: i64, cpf: &str, tipo: &str, status: &str) -> UsuarioRow {
    UsuarioRow {
        id,
        nome: "Fulano".to_string(),
        email: "fulano@exemplo.com".to_string(),
        cpf: cpf.to_string(),
        senha: "senha".to_string(),
        tipo: tipo.to_string(),
        status: status.to_string(),
        data_criacao: "2024-02-18 10:20:30.123+0000".to_string(),
        data_atualizacao: "2024-02-19 10:20:30.123+0000".to_string(),
    }
}

fn cliente_row(id: i64, cpf: &str) -> ClienteRow {
    ClienteRow {
        id,
        nome: "Joana".to_string(),
        email: "joana@ex.com".to_string(),
        cpf: cpf.to_string(),
        data_criacao: "2024-02-18 10:20:30.123+0000".to_string(),
        data_atualizacao: "2024-02-19 10:20:30.123+0000".to_string(),
    }
}

#[test]
fn test_get_tables() {
    let tables = get_tables();
    assert_eq!(tables.len(), 2);
    assert_eq!(tables[0].name, TablesNames::Usuario);
    assert_eq!(tables[0].name.to_string(), "usuario");
    assert_eq!(
        tables[0].columns,
        vec![
            "id",
            "nome",
            "email",
            "cpf",
            "senha",
            "tipo",
            "status",
            "data_criacao",
            "data_atualizacao"
        ]
    );
    assert_eq!(tables[0].columns, get_usuario_table_columns());
    assert_eq!(tables[1].name, TablesNames::Cliente);
    assert_eq!(tables[1].name.to_string(), "cliente");
    assert_eq!(
        tables[1].columns,
        vec!["id", "nome", "email", "cpf", "data_criacao", "data_atualizacao"]
    );
    assert_eq!(tables[1].columns, get_cliente_table_columns());
}

#[test]
fn test_statement_outcomes() {
    assert_eq!(changed(Ok(1)), Ok(()));
    assert_eq!(changed(Ok(7)), Ok(()));
    assert_eq!(changed(Ok(0)), Err(DomainError::NotFound));
    assert_eq!(changed(Err(SqlFailure::UniqueViolation)), Err(DomainError::AlreadyExists));
    assert_eq!(
        changed(Err(SqlFailure::Other("timeout".to_string()))),
        Err(DomainError::Invalid("timeout".to_string()))
    );
    assert_eq!(failure_to_error(SqlFailure::UniqueViolation), DomainError::AlreadyExists);
    assert_eq!(
        failure_to_error(SqlFailure::Other("connection closed".to_string())),
        DomainError::Invalid("connection closed".to_string())
    );
}

#[test]
fn test_read_row_id() {
    assert_eq!(read_row_id(0), Some(0));
    assert_eq!(read_row_id(1), Some(1));
    assert_eq!(read_row_id(-1), None);
    assert_eq!(read_row_id(i64::MIN), None);
    assert_eq!(read_row_id(i64::MAX), usize::try_from(i64::MAX).ok());
}

#[test]
fn test_usuario_rows() {
    let usuario = usuario::read_row(&usuario_row(5, "123.456.789-09", "Cozinha", "Inativo")).unwrap();
    assert_eq!(usuario.id(), &5);
    assert_eq!(usuario.nome(), "Fulano");
    assert_eq!(usuario.email(), "fulano@exemplo.com");
    assert_eq!(usuario.cpf().value(), "123.456.789-09");
    assert_eq!(usuario.senha(), "senha");
    assert_eq!(usuario.tipo(), &Tipo::Cozinha);
    assert_eq!(usuario.status(), &Status::Inativo);
    assert_eq!(usuario.data_criacao(), "2024-02-18 10:20:30.123+0000");
    assert_eq!(usuario.data_atualizacao(), "2024-02-19 10:20:30.123+0000");

    let malformed = DomainError::Invalid("Usuario".to_string());
    for row in [
        usuario_row(-5, "123.456.789-09", "Cozinha", "Inativo"),
        usuario_row(5, "12345678909", "Cozinha", "Inativo"),
        usuario_row(5, "123.456.789-09", "cozinha", "Inativo"),
        usuario_row(5, "123.456.789-09", "Cozinha", "Off"),
    ] {
        assert_eq!(usuario::read_row(&row).unwrap_err(), malformed);
        let rows = vec![usuario_row(1, "123.456.789-09", "Admin", "Ativo"), row];
        assert_eq!(usuario::selected_all(Ok(rows)).unwrap_err(), malformed);
    }

    assert_eq!(usuario::selected_one(Ok(vec![])).unwrap_err(), DomainError::NotFound);
    let one = usuario::selected_one(Ok(vec![
        usuario_row(1, "123.456.789-09", "Admin", "Ativo"),
        usuario_row(2, "987.654.321-00", "Admin", "Ativo"),
    ]))
    .unwrap();
    assert_eq!(one.id(), &1);
    assert_eq!(
        usuario::selected_one(Err(SqlFailure::Other("gone".to_string()))).unwrap_err(),
        DomainError::Invalid("gone".to_string())
    );

    let all = usuario::selected_all(Ok(vec![
        usuario_row(1, "123.456.789-09", "Admin", "Ativo"),
        usuario_row(2, "987.654.321-00", "Cozinha", "Ativo"),
    ]))
    .unwrap();
    assert_eq!(all.len(), 2);
    assert_eq!(all[0].id(), &1);
    assert_eq!(all[1].id(), &2);
    assert_eq!(all[1].tipo(), &Tipo::Cozinha);
    assert!(usuario::selected_all(Ok(vec![])).unwrap().is_empty());
    assert_eq!(
        usuario::selected_all(Err(SqlFailure::UniqueViolation)).unwrap_err(),
        DomainError::AlreadyExists
    );
}

#[test]
fn test_cliente_rows() {
    let cliente = cliente::read_row(&cliente_row(5, "123.456.789-09")).unwrap();
    assert_eq!(cliente.id(), &5);
    assert_eq!(cliente.nome(), "Joana");
    assert_eq!(cliente.email(), "joana@ex.com");
    assert_eq!(cliente.cpf().value(), "123.456.789-09");
    assert_eq!(cliente.data_criacao(), "2024-02-18 10:20:30.123+0000");
    assert_eq!(cliente.data_atualizacao(), "2024-02-19 10:20:30.123+0000");

    let malformed = DomainError::Invalid("Cliente".to_string());
    assert_eq!(cliente::read_row(&cliente_row(-1, "123.456.789-09")).unwrap_err(), malformed);
    assert_eq!(cliente::read_row(&cliente_row(1, "123456789-09")).unwrap_err(), malformed);
    assert_eq!(
        cliente::selected_all(Ok(vec![cliente_row(1, "123.456.789-09"), cliente_row(2, "")])).unwrap_err(),
        malformed
    );

    assert_eq!(cliente::selected_one(Ok(vec![])).unwrap_err(), DomainError::NotFound);
    assert_eq!(cliente::selected_one(Ok(vec![cliente_row(3, "123.456.789-09")])).unwrap().id(), &3);
    let all = cliente::selected_all(Ok(vec![
        cliente_row(1, "123.456.789-09"),
        cliente_row(2, "987.654.321-00"),
    ]))
    .unwrap();
    assert_eq!(all.len(), 2);
    assert_eq!(all[1].cpf().value(), "987.654.321-00");
    assert_eq!(
        cliente::selected_all(Err(SqlFailure::Other("gone".to_string()))).unwrap_err(),
        DomainError::Invalid("gone".to_string())
    );
}

#[test]
fn test_statements_of_the_usuario_table() {
    let table = &get_tables()[0];
    let columns = "id, nome, email, cpf, senha, tipo, status, data_criacao, data_atualizacao";
    assert_eq!(table.select_all(), format!("SELECT {} FROM usuario", columns));
    assert_eq!(table.select_by("id"), format!("SELECT {} FROM usuario WHERE id = $1", columns));
    assert_eq!(table.select_by("cpf"), format!("SELECT {} FROM usuario WHERE cpf = $1", columns));
    assert_eq!(
        table.insert(),
        format!(
            "INSERT INTO usuario (nome, email, cpf, senha, tipo, status, data_criacao, \
             data_atualizacao) VALUES ($1, $2, $3, $4, $5, $6, $7, $8) RETURNING {}",
            columns
        )
    );
    assert_eq!(
        table.update(),
        "UPDATE usuario SET nome = $2, email = $3, cpf = $4, senha = $5, tipo = $6, status = $7, \
         data_criacao = $8, data_atualizacao = $9 WHERE id = $1"
    );
    assert_eq!(table.delete_by("cpf"), "DELETE FROM usuario WHERE cpf = $1");
}

#[test]
fn test_statements_of_the_cliente_table() {
    let table = &get_tables()[1];
    let columns = "id, nome, email, cpf, data_criacao, data_atualizacao";
    assert_eq!(table.select_all(), format!("SELECT {} FROM cliente", columns));
    assert_eq!(table.select_by("cpf"), format!("SELECT {} FROM cliente WHERE cpf = $1", columns));
    assert_eq!(
        table.insert(),
        format!(
            "INSERT INTO cliente (nome, email, cpf, data_criacao, data_atualizacao) VALUES ($1, \
             $2, $3, $4, $5) RETURNING {}",
            columns
        )
    );
    assert_eq!(table.delete_by("cpf"), "DELETE FROM cliente WHERE cpf = $1");
}

#[test]
fn test_statements_of_small_and_wide_tables() {
    let none = Table { name: TablesNames::Cliente, columns: vec![] };
    assert_eq!(none.select_all(), "SELECT  FROM cliente");
    assert_eq!(none.insert(), "INSERT INTO cliente () VALUES () RETURNING ");
    assert_eq!(none.update(), "UPDATE cliente SET  WHERE  = $1");

    let one = Table { name: TablesNames::Cliente, columns: vec!["id".to_string()] };
    assert_eq!(one.select_all(), "SELECT id FROM cliente");
    assert_eq!(one.insert(), "INSERT INTO cliente () VALUES () RETURNING id");
    assert_eq!(one.update(), "UPDATE cliente SET  WHERE id = $1");

    let columns: Vec<String> = (0..12).map(|i| format!("c{}", i)).collect();
    let wide = Table { name: TablesNames::Usuario, columns };
    assert!(wide.insert().contains("VALUES ($1, $2, $3, $4, $5, $6, $7, $8, $9, $10, $11)"));
    assert!(wide.update().ends_with("c10 = $11, c11 = $12 WHERE c0 = $1"));
}

#[test]
fn test_id_parameter() {
    assert_eq!(id_parameter(0), Ok(0));
    assert_eq!(id_parameter(12345678909), Ok(12345678909));
    assert_eq!(
        id_parameter(usize::MAX),
        i64::try_from(usize::MAX).map_err(|_| DomainError::NotFound)
    );
    for id in [0, 1, 77, 12345678909] {
        assert_eq!(read_row_id(id_parameter(id).unwrap()), Some(id));
    }
}

#[test]
fn test_written_values_are_read_back() {
    let usuario = Usuario::new(
        0,
        "Fulano".to_string(),
        "fulano@exemplo.com".to_string(),
        Cpf::new("123.456.789-09".to_string()).unwrap(),
        "senha".to_string(),
        Tipo::Cozinha,
        Status::Inativo,
        "2024-02-18 10:20:30.123+0000".to_string(),
        "2024-02-19 10:20:30.123+0000".to_string(),
    );
    let values = usuario::written_values(&usuario);
    assert_eq!(
        values,
        vec![
            "Fulano",
            "fulano@exemplo.com",
            "123.456.789-09",
            "senha",
            "Cozinha",
            "Inativo",
            "2024-02-18 10:20:30.123+0000",
            "2024-02-19 10:20:30.123+0000"
        ]
    );
    assert_eq!(values.len() + 1, get_usuario_table_columns().len());
    let stored = UsuarioRow {
        id: 41,
        nome: values[0].clone(),
        email: values[1].clone(),
        cpf: values[2].clone(),
        senha: values[3].clone(),
        tipo: values[4].clone(),
        status: values[5].clone(),
        data_criacao: values[6].clone(),
        data_atualizacao: values[7].clone(),
    };
    let mut expected = usuario.clone();
    expected.set_id(41);
    assert!(usuario::read_row(&stored).unwrap() == expected);

    let cliente = Cliente::new(
        0,
        "Joana".to_string(),
        "joana@ex.com".to_string(),
        Cpf::new("123.456.789-09".to_string()).unwrap(),
        "2024-02-18 10:20:30.123+0000".to_string(),
        "2024-02-19 10:20:30.123+0000".to_string(),
    );
    let values = cliente::written_values(&cliente);
    assert_eq!(
        values,
        vec![
            "Joana",
            "joana@ex.com",
            "123.456.789-09",
            "2024-02-18 10:20:30.123+0000",
            "2024-02-19 10:20:30.123+0000"
        ]
    );
    assert_eq!(values.len() + 1, get_cliente_table_columns().len());
    let stored = ClienteRow {
        id: 42,
        nome: values[0].clone(),
        email: values[1].clone(),
        cpf: values[2].clone(),
        data_criacao: values[3].clone(),
        data_atualizacao: values[4].clone(),
    };
    let mut expected = cliente.clone();
    expected.set_id(42);
    assert!(cliente::read_row(&stored).unwrap() == expected);
}
