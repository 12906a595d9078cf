//! Staff accounts kept in a user directory. The directory is reached by
//! requests over a network; this module holds what is decided before a request
//! is sent and after its answer has come.

use vstd::prelude::*;
use vstd::string::StringExecFns;

use crate::base::assertion_concern::TIMESTAMP_FORMAT;
use crate::base::domain_error::{DomainError, DomainErrorView};
use crate::base::sequence::{
    lemma_filter_map_concat, lemma_filter_map_one, lemma_filter_map_total,
};
use crate::base::text::{decimal_usize, decimal_value, parse_usize, same_text};
use crate::entities::cpf::{
    is_canonical, lemma_unpunctuated_canonical, lemma_unpunctuated_fits,
    lemma_unpunctuated_is_number, without_punctuation, Cpf, LARGEST_CPF_NUMBER,
};
use crate::entities::usuario::{
    first_with_cpf, first_with_id, lemma_first_with_cpf, lemma_first_with_cpf_concat,
    lemma_first_with_cpf_push, lemma_first_with_id, lemma_first_with_id_concat,
    lemma_first_with_id_push, lemma_names_round_trip, Status, Tipo, Usuario, UsuarioView,
};
use crate::gateways::directory::{
    attribute_names, attribute_text, build_attributes, failure_to_error,
    lemma_attribute_names_differ, lemma_attribute_text_of_distinct,
    named_value, option_to_string, Attribute, AttributeView, CreateUserRequest,
    DeleteUserRequest, DirectoryFailure, UpdateUserAttributesRequest, ATTRIBUTE_CPF,
    ATTRIBUTE_DATA_ATUALIZACAO, ATTRIBUTE_DATA_CRIACAO, ATTRIBUTE_EMAIL, ATTRIBUTE_ID,
    ATTRIBUTE_NOME, ATTRIBUTE_SENHA, ATTRIBUTE_STATUS, ATTRIBUTE_TIPO,
};

verus! {

/// Reason carried by the error for a failed request about a staff account.
pub const SUBJECT: &'static str = "Usuario";

/// The account that a record of the directory stands for. A record whose CPF
/// is not canonical, whose role or status is no known name, or whose
/// identifier is no number stands for none.
pub open spec fn usuario_of_record(record: Seq<AttributeView>) -> Option<UsuarioView> {
    let cpf = attribute_text(record, ATTRIBUTE_CPF@);
    let tipo = Tipo::named(attribute_text(record, ATTRIBUTE_TIPO@));
    let status = Status::named(attribute_text(record, ATTRIBUTE_STATUS@));
    let id = decimal_usize(attribute_text(record, ATTRIBUTE_ID@));
    if is_canonical(cpf) && tipo is Some && status is Some && id is Some {
        Some(
            UsuarioView {
                id: id.unwrap(),
                nome: attribute_text(record, ATTRIBUTE_NOME@),
                email: attribute_text(record, ATTRIBUTE_EMAIL@),
                cpf,
                senha: attribute_text(record, ATTRIBUTE_SENHA@),
                tipo: tipo.unwrap(),
                status: status.unwrap(),
                data_criacao: attribute_text(record, ATTRIBUTE_DATA_CRIACAO@),
                data_atualizacao: attribute_text(record, ATTRIBUTE_DATA_ATUALIZACAO@),
            },
        )
    } else {
        None
    }
}

/// The accounts that a listing of the directory holds: those of its records
/// that stand for one, in the order of the listing.
pub open spec fn usuarios_of_records(records: Seq<Seq<AttributeView>>) -> Seq<UsuarioView> {
    records.filter_map(record_reader())
}

/// [`usuario_of_record`] as a value.
pub open spec fn record_reader() -> spec_fn(Seq<AttributeView>) -> Option<UsuarioView> {
    |record: Seq<AttributeView>| usuario_of_record(record)
}

/// The record under which an account is written to the directory. Its
/// identifier is the CPF without punctuation.
pub open spec fn record_of_usuario(usuario: UsuarioView) -> Seq<AttributeView> {
    seq![
        named_value(ATTRIBUTE_ID@, without_punctuation(usuario.cpf)),
        named_value(ATTRIBUTE_NOME@, usuario.nome),
        named_value(ATTRIBUTE_EMAIL@, usuario.email),
        named_value(ATTRIBUTE_CPF@, usuario.cpf),
        named_value(ATTRIBUTE_SENHA@, usuario.senha),
        named_value(ATTRIBUTE_TIPO@, usuario.tipo.text()),
        named_value(ATTRIBUTE_STATUS@, usuario.status.text()),
        named_value(ATTRIBUTE_DATA_CRIACAO@, usuario.data_criacao),
        named_value(ATTRIBUTE_DATA_ATUALIZACAO@, usuario.data_atualizacao),
    ]
}

/// Reads one record of the directory. Names that are not among the nine are
/// passed over; of a name that occurs twice the last occurrence counts.
pub fn read_usuario(record: &Vec<Attribute>) -> (usuario: Option<Usuario>)
    ensures
        match usuario {
            Some(u) => usuario_of_record(record.deep_view()) == Some(u@),
            None => usuario_of_record(record.deep_view()) is None,
        },
{
    let mut id = String::new();
    let mut nome = String::new();
    let mut email = String::new();
    let mut cpf_string = String::new();
    let mut senha = String::new();
    let mut tipo_string = String::new();
    let mut status_string = String::new();
    let mut data_criacao = String::new();
    let mut data_atualizacao = String::new();

    let ghost attributes = record.deep_view();
    let mut i: usize = 0;
    assert(attributes.take(0) =~= Seq::<AttributeView>::empty());
    while i < record.len()
        invariant
            i <= record.len(),
            attributes == record.deep_view(),
            id@ == attribute_text(attributes.take(i as int), ATTRIBUTE_ID@),
            nome@ == attribute_text(attributes.take(i as int), ATTRIBUTE_NOME@),
            email@ == attribute_text(attributes.take(i as int), ATTRIBUTE_EMAIL@),
            cpf_string@ == attribute_text(attributes.take(i as int), ATTRIBUTE_CPF@),
            senha@ == attribute_text(attributes.take(i as int), ATTRIBUTE_SENHA@),
            tipo_string@ == attribute_text(attributes.take(i as int), ATTRIBUTE_TIPO@),
            status_string@ == attribute_text(attributes.take(i as int), ATTRIBUTE_STATUS@),
            data_criacao@ == attribute_text(attributes.take(i as int), ATTRIBUTE_DATA_CRIACAO@),
            data_atualizacao@ == attribute_text(
                attributes.take(i as int),
                ATTRIBUTE_DATA_ATUALIZACAO@,
            ),
        decreases record.len() - i,
    {
        let attribute = &record[i];
        let value = option_to_string(
            match &attribute.value {
                Some(text) => Some(text.as_str()),
                None => None,
            },
        );
        proof {
            lemma_attribute_names_differ();
            assert(attributes.take(i + 1).drop_last() =~= attributes.take(i as int));
            assert(attributes.take(i + 1).last() == attribute@);
        }
        let name = attribute.name.as_str();
        if same_text(name, ATTRIBUTE_ID) {
            id = value;
        } else if same_text(name, ATTRIBUTE_NOME) {
            nome = value;
        } else if same_text(name, ATTRIBUTE_EMAIL) {
            email = value;
        } else if same_text(name, ATTRIBUTE_CPF) {
            cpf_string = value;
        } else if same_text(name, ATTRIBUTE_SENHA) {
            senha = value;
        } else if same_text(name, ATTRIBUTE_TIPO) {
            tipo_string = value;
        } else if same_text(name, ATTRIBUTE_STATUS) {
            status_string = value;
        } else if same_text(name, ATTRIBUTE_DATA_CRIACAO) {
            data_criacao = value;
        } else if same_text(name, ATTRIBUTE_DATA_ATUALIZACAO) {
            data_atualizacao = value;
        }
        i += 1;
    }
    assert(attributes.take(record.len() as int) =~= attributes);

    let cpf = match Cpf::new(cpf_string) {
        Ok(cpf) => cpf,
        Err(_) => {
            return None;
        },
    };
    let tipo = match Tipo::from_str(tipo_string.as_str()) {
        Ok(tipo) => tipo,
        Err(_) => {
            return None;
        },
    };
    let status = match Status::from_str(status_string.as_str()) {
        Ok(status) => status,
        Err(_) => {
            return None;
        },
    };
    match parse_usize(id.as_str()) {
        Some(id_value) => Some(
            Usuario::new(
                id_value,
                nome,
                email,
                cpf,
                senha,
                tipo,
                status,
                data_criacao,
                data_atualizacao,
            ),
        ),
        None => None,
    }
}

/// Turns the answer to a listing request into accounts. Records that stand
/// for no account are left out and the others still come; a failed request
/// gives `Invalid`.
pub fn get_usuarios(response: Result<Vec<Vec<Attribute>>, DirectoryFailure>) -> (r: Result<
    Vec<Usuario>,
    DomainError,
>)
    ensures
        match response {
            Ok(records) => r matches Ok(usuarios) && usuarios.deep_view() == usuarios_of_records(
                records.deep_view(),
            ),
            Err(_) => r matches Err(e) && e@ == DomainErrorView::Invalid(SUBJECT@),
        },
{
    match response {
        Ok(records) => {
            let mut usuarios: Vec<Usuario> = Vec::new();
            let ghost all = records.deep_view();
            let mut i: usize = 0;
            assert(all.take(0) =~= Seq::<Seq<AttributeView>>::empty());
            while i < records.len()
                invariant
                    i <= records.len(),
                    all == records.deep_view(),
                    usuarios.deep_view() == usuarios_of_records(all.take(i as int)),
                decreases records.len() - i,
            {
                let ghost before = usuarios.deep_view();
                proof {
                    assert(all.take(i + 1).drop_last() =~= all.take(i as int));
                    assert(all.take(i + 1).last() == records[i as int].deep_view());
                }
                match read_usuario(&records[i]) {
                    Some(usuario) => {
                        usuarios.push(usuario);
                        assert(usuarios.deep_view() =~= before + seq![usuario@]);
                    },
                    None => {},
                }
                i += 1;
            }
            assert(all.take(records.len() as int) =~= all);
            Ok(usuarios)
        },
        Err(failure) => Err(failure_to_error(failure, SUBJECT)),
    }
}

/// Picks the account with the given CPF out of a listing. The directory cannot
/// be asked for one account by an attribute, so every lookup reads them all.
/// A listing that failed fails the lookup with the same error; only a listing
/// that came and holds no such account gives `NotFound`.
pub fn get_usuario_by_cpf(listing: Result<Vec<Usuario>, DomainError>, cpf: Cpf) -> (r: Result<
    Usuario,
    DomainError,
>)
    ensures
        match listing {
            Ok(usuarios) => match first_with_cpf(usuarios.deep_view(), cpf@) {
                Some(found) => r matches Ok(usuario) && usuario@ == found,
                None => r matches Err(e) && e@ == DomainErrorView::NotFound,
            },
            Err(error) => r matches Err(e) && e@ == error@,
        },
{
    let usuarios = match listing {
        Ok(usuarios) => usuarios,
        Err(error) => {
            return Err(error);
        },
    };
    let ghost all = usuarios.deep_view();
    let mut i: usize = 0;
    assert(all.skip(0) =~= all);
    while i < usuarios.len()
        invariant
            i <= usuarios.len(),
            listing == Ok::<Vec<Usuario>, DomainError>(usuarios),
            all == usuarios.deep_view(),
            first_with_cpf(all, cpf@) == first_with_cpf(all.skip(i as int), cpf@),
        decreases usuarios.len() - i,
    {
        proof {
            assert(all.skip(i as int).first() == usuarios[i as int]@);
            assert(all.skip(i as int).drop_first() =~= all.skip(i + 1));
        }
        if *cpf.value() == *usuarios[i].cpf().value() {
            return Ok(usuarios[i].clone());
        }
        i += 1;
    }
    Err(DomainError::NotFound)
}

/// Picks the account with the given identifier out of a listing, under the
/// same rules as [`get_usuario_by_cpf`].
pub fn get_usuario_by_id(listing: Result<Vec<Usuario>, DomainError>, id: usize) -> (r: Result<
    Usuario,
    DomainError,
>)
    ensures
        match listing {
            Ok(usuarios) => match first_with_id(usuarios.deep_view(), id) {
                Some(found) => r matches Ok(usuario) && usuario@ == found,
                None => r matches Err(e) && e@ == DomainErrorView::NotFound,
            },
            Err(error) => r matches Err(e) && e@ == error@,
        },
{
    let usuarios = match listing {
        Ok(usuarios) => usuarios,
        Err(error) => {
            return Err(error);
        },
    };
    let ghost all = usuarios.deep_view();
    let mut i: usize = 0;
    assert(all.skip(0) =~= all);
    while i < usuarios.len()
        invariant
            i <= usuarios.len(),
            listing == Ok::<Vec<Usuario>, DomainError>(usuarios),
            all == usuarios.deep_view(),
            first_with_id(all, id) == first_with_id(all.skip(i as int), id),
        decreases usuarios.len() - i,
    {
        proof {
            assert(all.skip(i as int).first() == usuarios[i as int]@);
            assert(all.skip(i as int).drop_first() =~= all.skip(i + 1));
        }
        if id == *usuarios[i].id() {
            return Ok(usuarios[i].clone());
        }
        i += 1;
    }
    Err(DomainError::NotFound)
}

/// Writes an account as the attributes under which the directory keeps it.
pub fn usuario_attributes(usuario: &Usuario) -> (attributes: Vec<Attribute>)
    ensures
        attributes.deep_view() == record_of_usuario(usuario@),
{
    let id = usuario.cpf().unpunctuated();
    let tipo = usuario.tipo().to_string();
    let status = usuario.status().to_string();
    let attribute_specs: Vec<(&str, &str)> = vec![
        (ATTRIBUTE_ID, id.as_str()),
        (ATTRIBUTE_NOME, usuario.nome().as_str()),
        (ATTRIBUTE_EMAIL, usuario.email().as_str()),
        (ATTRIBUTE_CPF, usuario.cpf().value().as_str()),
        (ATTRIBUTE_SENHA, usuario.senha().as_str()),
        (ATTRIBUTE_TIPO, tipo.as_str()),
        (ATTRIBUTE_STATUS, status.as_str()),
        (ATTRIBUTE_DATA_CRIACAO, usuario.data_criacao().as_str()),
        (ATTRIBUTE_DATA_ATUALIZACAO, usuario.data_atualizacao().as_str()),
    ];
    let attributes = build_attributes(&attribute_specs);
    assert(attributes.deep_view() =~= record_of_usuario(usuario@));
    attributes
}

/// The request that adds an account to the directory. The account goes under
/// its CPF without punctuation, which is its first password too.
pub fn create_usuario_request(usuario: &Usuario) -> (request: CreateUserRequest)
    ensures
        request.username@ == without_punctuation(usuario@.cpf),
        request.temporary_password@ == without_punctuation(usuario@.cpf),
        request.user_attributes.deep_view() == record_of_usuario(usuario@),
{
    CreateUserRequest {
        username: usuario.cpf().unpunctuated(),
        temporary_password: usuario.cpf().unpunctuated(),
        user_attributes: usuario_attributes(usuario),
    }
}

/// What the caller gets once the directory has answered a request to add
/// `usuario`: the account as it was handed in, or `Invalid`.
pub fn create_usuario(usuario: Usuario, outcome: Result<(), DirectoryFailure>) -> (r: Result<
    Usuario,
    DomainError,
>)
    ensures
        match outcome {
            Ok(_) => r matches Ok(created) && created@ == usuario@,
            Err(_) => r matches Err(e) && e@ == DomainErrorView::Invalid(SUBJECT@),
        },
{
    match outcome {
        Ok(_) => Ok(usuario),
        Err(failure) => Err(failure_to_error(failure, SUBJECT)),
    }
}

/// The request that rewrites every attribute of the account with the CPF of
/// `usuario`. The CPF itself cannot be changed this way: it names the account.
pub fn update_usuario_request(usuario: &Usuario) -> (request: UpdateUserAttributesRequest)
    ensures
        request.username@ == without_punctuation(usuario@.cpf),
        request.user_attributes.deep_view() == record_of_usuario(usuario@),
{
    UpdateUserAttributesRequest {
        username: usuario.cpf().unpunctuated(),
        user_attributes: usuario_attributes(usuario),
    }
}

/// What the caller gets once the directory has answered a request to rewrite
/// `usuario`: the account as it was handed in, or `Invalid`.
pub fn update_usuario(usuario: Usuario, outcome: Result<(), DirectoryFailure>) -> (r: Result<
    Usuario,
    DomainError,
>)
    ensures
        match outcome {
            Ok(_) => r matches Ok(updated) && updated@ == usuario@,
            Err(_) => r matches Err(e) && e@ == DomainErrorView::Invalid(SUBJECT@),
        },
{
    match outcome {
        Ok(_) => Ok(usuario),
        Err(failure) => Err(failure_to_error(failure, SUBJECT)),
    }
}

/// The request that removes the account with the given CPF, given a listing
/// of the directory. Where the listing came and shows no such account, there
/// is nothing to remove and no request to send: that is `NotFound`. A listing
/// that failed fails the deletion with the same error, so that an outage is
/// not taken for an absent account.
pub fn delete_usuario_request(listing: Result<Vec<Usuario>, DomainError>, cpf: &Cpf) -> (r: Result<
    DeleteUserRequest,
    DomainError,
>)
    ensures
        match listing {
            Ok(usuarios) => match first_with_cpf(usuarios.deep_view(), cpf@) {
                Some(_) => r matches Ok(request) && request.username@ == without_punctuation(
                    cpf@,
                ),
                None => r matches Err(e) && e@ == DomainErrorView::NotFound,
            },
            Err(error) => r matches Err(e) && e@ == error@,
        },
{
    match get_usuario_by_cpf(listing, cpf.clone()) {
        Ok(_) => Ok(DeleteUserRequest { username: cpf.unpunctuated() }),
        Err(error) => Err(error),
    }
}

/// What the caller gets once the directory has answered a request to remove
/// an account that a listing showed: nothing, or `Invalid`.
pub fn delete_usuario(outcome: Result<(), DirectoryFailure>) -> (r: Result<(), DomainError>)
    ensures
        match outcome {
            Ok(_) => r is Ok,
            Err(_) => r matches Err(e) && e@ == DomainErrorView::Invalid(SUBJECT@),
        },
{
    match outcome {
        Ok(_) => Ok(()),
        Err(failure) => Err(failure_to_error(failure, SUBJECT)),
    }
}

/// The CPF that stands for the administrator every directory starts with.
pub const ADMIN_CPF: &'static str = "000.000.000-00";

pub const ADMIN_NOME: &'static str = "Administrador";

pub const ADMIN_EMAIL: &'static str = "admin@fastfood.com.br";

pub const ADMIN_SENHA: &'static str = "melhor_projeto";

/// The administrator as it is first written: active, and created and last
/// changed at the same moment.
pub open spec fn default_admin_view(now: Seq<char>) -> UsuarioView {
    UsuarioView {
        id: 0,
        nome: ADMIN_NOME@,
        email: ADMIN_EMAIL@,
        cpf: ADMIN_CPF@,
        senha: ADMIN_SENHA@,
        tipo: Tipo::Admin,
        status: Status::Ativo,
        data_criacao: now,
        data_atualizacao: now,
    }
}

/// The administrator's CPF is in canonical form.
pub proof fn lemma_admin_cpf_is_canonical()
    ensures
        is_canonical(ADMIN_CPF@),
{
    reveal_strlit("000.000.000-00");
}

/// The administrator to write when none is there, stamped with `now`.
pub fn default_admin(now: String) -> (admin: Usuario)
    ensures
        admin@ == default_admin_view(now@),
{
    proof {
        lemma_admin_cpf_is_canonical();
    }
    let cpf = Cpf::new(String::from_str(ADMIN_CPF)).unwrap();
    Usuario::new(
        0,
        String::from_str(ADMIN_NOME),
        String::from_str(ADMIN_EMAIL),
        cpf,
        String::from_str(ADMIN_SENHA),
        Tipo::Admin,
        Status::Ativo,
        now.clone(),
        now,
    )
}

/// Whether a lookup says that the account is not there. A lookup that failed
/// for another reason says nothing of the account.
pub open spec fn says_absent(lookup: Result<Usuario, DomainError>) -> bool {
    lookup matches Err(e) && e@ == DomainErrorView::NotFound
}

/// Decides what a start of the service owes the directory, given what the
/// lookup of the administrator gave: the administrator to create where the
/// lookup says `NotFound`, nothing where the account was found, and nothing
/// where the lookup failed, because an outage is no sign of absence.
pub fn admin_to_create(lookup: &Result<Usuario, DomainError>, now: String) -> (create: Option<
    Usuario,
>)
    ensures
        says_absent(*lookup) ==> (create matches Some(admin) && admin@ == default_admin_view(
            now@,
        )),
        !says_absent(*lookup) ==> create is None,
{
    match lookup {
        Err(DomainError::NotFound) => Some(default_admin(now)),
        _ => None,
    }
}

/// Reads the clock with `chrono::Utc::now` and writes the moment with
/// `DateTime::format`. Nothing is claimed of the text: it differs from call to
/// call. The format is held to the one that is known to be well formed,
/// because writing under a malformed one panics; so does a clock set before
/// 1970.
#[verifier::external_body]
fn utc_now(format: &str) -> (text: String)
    requires
        format@ == TIMESTAMP_FORMAT@,
{
    chrono::Utc::now().format(format).to_string()
}

/// Whether the answer to a listing request shows the administrator.
pub open spec fn admin_is_listed(response: Result<Vec<Vec<Attribute>>, DirectoryFailure>) -> bool {
    response matches Ok(records) && admin_in(records.deep_view())
}

/// Whether a listing of the directory shows the administrator.
pub open spec fn admin_in(records: Seq<Seq<AttributeView>>) -> bool {
    first_with_cpf(usuarios_of_records(records), ADMIN_CPF@) is Some
}

/// The records of a directory once a start of the service has looked after
/// the administrator: one record more where the listing showed none, the
/// same records where it showed one.
pub open spec fn after_bootstrap(records: Seq<Seq<AttributeView>>, now: Seq<char>) -> Seq<
    Seq<AttributeView>,
> {
    if admin_in(records) {
        records
    } else {
        records.push(record_of_usuario(default_admin_view(now)))
    }
}

/// Looks for the administrator in the answer to a listing request. Where the
/// listing came and shows none, it returns the account to create, both of its
/// timestamps set to the present moment. Where the administrator is there,
/// and where the request failed, nothing is to be done.
pub fn check_for_usuario_admin(response: Result<Vec<Vec<Attribute>>, DirectoryFailure>) -> (create:
    Option<Usuario>)
    ensures
        (response is Err || admin_is_listed(response)) ==> create is None,
        (response is Ok && !admin_is_listed(response)) ==> (create matches Some(admin) && admin@
            == default_admin_view(admin@.data_criacao)),
{
    proof {
        lemma_admin_cpf_is_canonical();
    }
    let admin_cpf = Cpf::new(String::from_str(ADMIN_CPF)).unwrap();
    let usuario_admin = get_usuario_by_cpf(get_usuarios(response), admin_cpf);
    match usuario_admin {
        Err(DomainError::NotFound) => admin_to_create(&usuario_admin, utc_now(TIMESTAMP_FORMAT)),
        _ => None,
    }
}

/// The account that is read back from the record of `usuario`: `usuario` under
/// the number that the digits of its CPF write, where a `usize` holds it.
pub open spec fn read_back(usuario: UsuarioView) -> Option<UsuarioView> {
    match decimal_usize(without_punctuation(usuario.cpf)) {
        Some(id) => Some(UsuarioView { id, ..usuario }),
        None => None,
    }
}

/// Writing an account and reading the record gives the account back, but for
/// its identifier, which the directory derives from the CPF.
pub proof fn lemma_record_round_trip(usuario: UsuarioView)
    requires
        is_canonical(usuario.cpf),
    ensures
        usuario_of_record(record_of_usuario(usuario)) == read_back(usuario),
        read_back(usuario) is Some <==> decimal_value(without_punctuation(usuario.cpf))
            <= usize::MAX,
{
    let record = record_of_usuario(usuario);
    lemma_unpunctuated_is_number(usuario.cpf);
    lemma_attribute_names_differ();
    lemma_names_round_trip(usuario.tipo, usuario.status);
    assert forall|i: int, j: int| 0 <= i < j < record.len() implies (#[trigger] record[i]).name != (
    #[trigger] record[j]).name by {
        assert(record[i].name == attribute_names()[i]);
        assert(record[j].name == attribute_names()[j]);
    }
    lemma_attribute_text_of_distinct(record, 0);
    lemma_attribute_text_of_distinct(record, 1);
    lemma_attribute_text_of_distinct(record, 2);
    lemma_attribute_text_of_distinct(record, 3);
    lemma_attribute_text_of_distinct(record, 4);
    lemma_attribute_text_of_distinct(record, 5);
    lemma_attribute_text_of_distinct(record, 6);
    lemma_attribute_text_of_distinct(record, 7);
    lemma_attribute_text_of_distinct(record, 8);
}

/// A record that stands for no account changes nothing in a listing, wherever
/// it is put: the accounts of the other records come, and only they.
pub proof fn lemma_listing_skips_malformed(
    records: Seq<Seq<AttributeView>>,
    position: int,
    malformed: Seq<AttributeView>,
)
    requires
        0 <= position <= records.len(),
        usuario_of_record(malformed) is None,
    ensures
        usuarios_of_records(records.insert(position, malformed)) == usuarios_of_records(records),
{
    let before = records.take(position);
    let after = records.skip(position);
    assert(records.insert(position, malformed) =~= (before + seq![malformed]) + after);
    assert(records =~= before + after);
    lemma_filter_map_concat(before + seq![malformed], after, record_reader());
    lemma_filter_map_concat(before, seq![malformed], record_reader());
    lemma_filter_map_one(malformed, record_reader());
    lemma_filter_map_concat(before, after, record_reader());
    assert(before.filter_map(record_reader()) + Seq::<UsuarioView>::empty()
        =~= before.filter_map(record_reader()));
}

/// A listing whose records all stand for accounts gives one account for each
/// record, in the order of the records.
pub proof fn lemma_listing_keeps_well_formed(records: Seq<Seq<AttributeView>>)
    requires
        forall|i: int| 0 <= i < records.len() ==> usuario_of_record(#[trigger] records[i]) is Some,
    ensures
        usuarios_of_records(records).len() == records.len(),
        forall|i: int|
            0 <= i < records.len() ==> Some(#[trigger] usuarios_of_records(records)[i])
                == usuario_of_record(records[i]),
{
    lemma_filter_map_total(records, record_reader());
}

/// A listing with one record that stands for no account among records that
/// all stand for one gives exactly the accounts of those, in their order.
pub proof fn lemma_listing_with_one_malformed(
    records: Seq<Seq<AttributeView>>,
    position: int,
    malformed: Seq<AttributeView>,
)
    requires
        0 <= position <= records.len(),
        usuario_of_record(malformed) is None,
        forall|i: int| 0 <= i < records.len() ==> usuario_of_record(#[trigger] records[i]) is Some,
    ensures
        usuarios_of_records(records.insert(position, malformed)).len() == records.len(),
        forall|i: int|
            0 <= i < records.len() ==> Some(
                #[trigger] usuarios_of_records(records.insert(position, malformed))[i],
            ) == usuario_of_record(records[i]),
{
    lemma_listing_skips_malformed(records, position, malformed);
    lemma_listing_keeps_well_formed(records);
}

/// An account that was written at the end of a directory is in the next
/// listing: a lookup by its CPF finds it, as it is read back, where no account
/// had that CPF before; and so does a lookup by the identifier it is read back
/// under, where no account had that identifier.
pub proof fn lemma_created_is_found(records: Seq<Seq<AttributeView>>, usuario: UsuarioView)
    requires
        is_canonical(usuario.cpf),
        read_back(usuario) is Some,
        first_with_cpf(usuarios_of_records(records), usuario.cpf) is None,
    ensures
        usuarios_of_records(records.push(record_of_usuario(usuario))) == usuarios_of_records(
            records,
        ).push(read_back(usuario).unwrap()),
        first_with_cpf(
            usuarios_of_records(records.push(record_of_usuario(usuario))),
            usuario.cpf,
        ) == read_back(usuario),
        first_with_id(usuarios_of_records(records), read_back(usuario).unwrap().id) is None
            ==> first_with_id(
            usuarios_of_records(records.push(record_of_usuario(usuario))),
            read_back(usuario).unwrap().id,
        ) == read_back(usuario),
{
    let record = record_of_usuario(usuario);
    let found = read_back(usuario).unwrap();
    lemma_record_round_trip(usuario);
    assert(records.push(record) =~= records + seq![record]);
    lemma_filter_map_concat(records, seq![record], record_reader());
    lemma_filter_map_one(record, record_reader());
    assert(usuarios_of_records(records) + seq![found] =~= usuarios_of_records(records).push(found));
    lemma_first_with_cpf_push(usuarios_of_records(records), found, usuario.cpf);
    lemma_first_with_id_push(usuarios_of_records(records), found, found.id);
}

/// The administrator is read back from its record under identifier 0.
pub proof fn lemma_admin_round_trip(now: Seq<char>)
    ensures
        usuario_of_record(record_of_usuario(default_admin_view(now))) == Some(
            default_admin_view(now),
        ),
{
    let admin = default_admin_view(now);
    lemma_admin_cpf_is_canonical();
    lemma_record_round_trip(admin);
    lemma_unpunctuated_canonical(admin.cpf);
    lemma_unpunctuated_is_number(admin.cpf);
    reveal_strlit("000.000.000-00");
    let digits = without_punctuation(admin.cpf);
    assert(digits =~= seq!['0', '0', '0', '0', '0', '0', '0', '0', '0', '0', '0']);
    assert(decimal_value(digits) == 0) by {
        reveal_with_fuel(decimal_value, 12);
    }
}

/// Once a start of the service has looked after the administrator, the
/// directory shows one, and a second start changes nothing.
pub proof fn lemma_bootstrap_once_is_enough(
    records: Seq<Seq<AttributeView>>,
    first: Seq<char>,
    second: Seq<char>,
)
    ensures
        admin_in(after_bootstrap(records, first)),
        after_bootstrap(after_bootstrap(records, first), second) == after_bootstrap(
            records,
            first,
        ),
{
    if !admin_in(records) {
        let admin = default_admin_view(first);
        lemma_admin_cpf_is_canonical();
        lemma_admin_round_trip(first);
        lemma_record_round_trip(admin);
        lemma_created_is_found(records, admin);
    }
}

/// Two starts of the service against an empty directory leave exactly one
/// account in it: the administrator that the first start wrote.
pub proof fn lemma_bootstrap_twice_from_empty(first: Seq<char>, second: Seq<char>)
    ensures
        usuarios_of_records(
            after_bootstrap(after_bootstrap(Seq::empty(), first), second),
        ) == seq![default_admin_view(first)],
{
    let empty = Seq::<Seq<AttributeView>>::empty();
    let admin = default_admin_view(first);
    assert(usuarios_of_records(empty) =~= Seq::<UsuarioView>::empty());
    assert(!admin_in(empty));
    lemma_bootstrap_once_is_enough(empty, first, second);
    lemma_admin_cpf_is_canonical();
    lemma_admin_round_trip(first);
    lemma_record_round_trip(admin);
    lemma_created_is_found(empty, admin);
    assert(usuarios_of_records(empty).push(admin) =~= seq![admin]);
}

/// Where a `usize` has 64 bits, every account is read back from its record.
pub proof fn lemma_read_back_exists(usuario: UsuarioView)
    requires
        is_canonical(usuario.cpf),
        usize::MAX >= LARGEST_CPF_NUMBER,
    ensures
        read_back(usuario) is Some,
        usuario_of_record(record_of_usuario(usuario)) == read_back(usuario),
{
    lemma_unpunctuated_fits(usuario.cpf);
    lemma_record_round_trip(usuario);
}

/// A listing in which the record of an account stands at `position` holds the
/// accounts of the records before it, then the account as it is read back,
/// then the accounts of the records after it.
pub proof fn lemma_listing_around_record(
    records: Seq<Seq<AttributeView>>,
    position: int,
    usuario: UsuarioView,
)
    requires
        is_canonical(usuario.cpf),
        read_back(usuario) is Some,
        0 <= position < records.len(),
        records[position] == record_of_usuario(usuario),
    ensures
        usuarios_of_records(records) == usuarios_of_records(records.take(position)) + (
        seq![read_back(usuario).unwrap()] + usuarios_of_records(records.skip(position + 1))),
{
    let record = records[position];
    let before = records.take(position);
    let after = records.skip(position + 1);
    lemma_record_round_trip(usuario);
    assert(records =~= before + (seq![record] + after));
    lemma_filter_map_concat(before, seq![record] + after, record_reader());
    lemma_filter_map_concat(seq![record], after, record_reader());
    lemma_filter_map_one(record, record_reader());
}

/// An account that was written to the directory is found by its CPF wherever
/// its record stands in the listing, with every attribute as it was written
/// and under the identifier that its CPF gives, as long as no record before
/// it stands for an account with the same CPF.
pub proof fn lemma_written_is_found_by_cpf(
    records: Seq<Seq<AttributeView>>,
    position: int,
    usuario: UsuarioView,
)
    requires
        is_canonical(usuario.cpf),
        read_back(usuario) is Some,
        0 <= position < records.len(),
        records[position] == record_of_usuario(usuario),
        forall|i: int|
            0 <= i < position ==> (usuario_of_record(#[trigger] records[i]) matches Some(other)
                ==> other.cpf != usuario.cpf),
    ensures
        first_with_cpf(usuarios_of_records(records), usuario.cpf) == read_back(usuario),
        read_back(usuario) == Some(UsuarioView { id: read_back(usuario).unwrap().id, ..usuario }),
{
    let before = records.take(position);
    let listed_before = usuarios_of_records(before);
    let found = read_back(usuario).unwrap();
    let rest = seq![found] + usuarios_of_records(records.skip(position + 1));
    lemma_listing_around_record(records, position, usuario);
    lemma_first_with_cpf(listed_before, usuario.cpf);
    assert(first_with_cpf(listed_before, usuario.cpf) is None) by {
        if first_with_cpf(listed_before, usuario.cpf) is Some {
            let j = choose|j: int|
                0 <= j < listed_before.len() && (#[trigger] listed_before[j]).cpf == usuario.cpf;
            let other = listed_before[j];
            assert(listed_before.contains(other));
            before.lemma_filter_map_contains(record_reader(), other);
            let source = choose|source: Seq<AttributeView>| #[trigger]
                before.contains(source) && record_reader()(source) == Some(other);
            let i = choose|i: int| 0 <= i < before.len() && before[i] == source;
            assert(records[i] == source);
        }
    }
    lemma_first_with_cpf_concat(listed_before, rest, usuario.cpf);
    assert(rest.first() == found);
}

/// An account that was written to the directory is found by the identifier
/// that its CPF gives wherever its record stands in the listing, as long as
/// no record before it stands for an account with that identifier.
pub proof fn lemma_written_is_found_by_id(
    records: Seq<Seq<AttributeView>>,
    position: int,
    usuario: UsuarioView,
)
    requires
        is_canonical(usuario.cpf),
        read_back(usuario) is Some,
        0 <= position < records.len(),
        records[position] == record_of_usuario(usuario),
        forall|i: int|
            0 <= i < position ==> (usuario_of_record(#[trigger] records[i]) matches Some(other)
                ==> other.id != read_back(usuario).unwrap().id),
    ensures
        first_with_id(usuarios_of_records(records), read_back(usuario).unwrap().id) == read_back(usuario),
{
    let before = records.take(position);
    let listed_before = usuarios_of_records(before);
    let found = read_back(usuario).unwrap();
    let rest = seq![found] + usuarios_of_records(records.skip(position + 1));
    lemma_listing_around_record(records, position, usuario);
    lemma_first_with_id(listed_before, found.id);
    assert(first_with_id(listed_before, found.id) is None) by {
        if first_with_id(listed_before, found.id) is Some {
            let j = choose|j: int|
                0 <= j < listed_before.len() && (#[trigger] listed_before[j]).id == found.id;
            let other = listed_before[j];
            assert(listed_before.contains(other));
            before.lemma_filter_map_contains(record_reader(), other);
            let source = choose|source: Seq<AttributeView>| #[trigger]
                before.contains(source) && record_reader()(source) == Some(other);
            let i = choose|i: int| 0 <= i < before.len() && before[i] == source;
            assert(records[i] == source);
        }
    }
    lemma_first_with_id_concat(listed_before, rest, found.id);
    assert(rest.first() == found);
}

} // verus!
