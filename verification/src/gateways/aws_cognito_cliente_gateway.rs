//! Customer accounts kept in a user directory. The directory is reached by
//! requests over a network; this module holds what is decided before a request
//! is sent and after its answer has come.

use vstd::prelude::*;

use crate::base::domain_error::{DomainError, DomainErrorView};
use crate::base::sequence::{
    lemma_filter_map_concat, lemma_filter_map_one, lemma_filter_map_total,
};
use crate::base::text::{decimal_usize, decimal_value, parse_usize, same_text};
use crate::entities::cliente::{
    first_with_cpf, first_with_id, lemma_first_with_cpf, lemma_first_with_cpf_concat,
    lemma_first_with_cpf_push, lemma_first_with_id, lemma_first_with_id_concat,
    lemma_first_with_id_push, Cliente, ClienteView,
};
use crate::entities::cpf::{
    is_canonical, lemma_unpunctuated_fits, lemma_unpunctuated_is_number, without_punctuation,
    Cpf, LARGEST_CPF_NUMBER,
};
use crate::gateways::directory::{
    attribute_names, attribute_text, build_attributes, failure_to_error,
    lemma_attribute_names_differ, lemma_attribute_text_of_distinct,
    named_value, option_to_string, Attribute, AttributeView, CreateUserRequest,
    DeleteUserRequest, DirectoryFailure, ATTRIBUTE_CPF, ATTRIBUTE_DATA_ATUALIZACAO,
    ATTRIBUTE_DATA_CRIACAO, ATTRIBUTE_EMAIL, ATTRIBUTE_ID, ATTRIBUTE_NOME,
};

verus! {

/// Reason carried by the error for a failed request about a customer account.
pub const SUBJECT: &'static str = "Cliente";

/// The account that a record of the directory stands for. A record whose CPF
/// is not canonical or whose identifier is no number stands for none.
pub open spec fn cliente_of_record(record: Seq<AttributeView>) -> Option<ClienteView> {
    let cpf = attribute_text(record, ATTRIBUTE_CPF@);
    let id = decimal_usize(attribute_text(record, ATTRIBUTE_ID@));
    if is_canonical(cpf) && id is Some {
        Some(
            ClienteView {
                id: id.unwrap(),
                nome: attribute_text(record, ATTRIBUTE_NOME@),
                email: attribute_text(record, ATTRIBUTE_EMAIL@),
                cpf,
                data_criacao: attribute_text(record, ATTRIBUTE_DATA_CRIACAO@),
                data_atualizacao: attribute_text(record, ATTRIBUTE_DATA_ATUALIZACAO@),
            },
        )
    } else {
        None
    }
}

/// The accounts that a listing of the directory holds: those of its records
/// that stand for one, in the order of the listing.
pub open spec fn clientes_of_records(records: Seq<Seq<AttributeView>>) -> Seq<ClienteView> {
    records.filter_map(record_reader())
}

/// [`cliente_of_record`] as a value.
pub open spec fn record_reader() -> spec_fn(Seq<AttributeView>) -> Option<ClienteView> {
    |record: Seq<AttributeView>| cliente_of_record(record)
}

/// The record under which an account is written to the directory. Its
/// identifier is the CPF without punctuation.
pub open spec fn record_of_cliente(cliente: ClienteView) -> Seq<AttributeView> {
    seq![
        named_value(ATTRIBUTE_ID@, without_punctuation(cliente.cpf)),
        named_value(ATTRIBUTE_NOME@, cliente.nome),
        named_value(ATTRIBUTE_EMAIL@, cliente.email),
        named_value(ATTRIBUTE_CPF@, cliente.cpf),
        named_value(ATTRIBUTE_DATA_CRIACAO@, cliente.data_criacao),
        named_value(ATTRIBUTE_DATA_ATUALIZACAO@, cliente.data_atualizacao),
    ]
}

/// Reads one record of the directory. Names that a customer does not have are
/// passed over; of a name that occurs twice the last occurrence counts.
pub fn read_cliente(record: &Vec<Attribute>) -> (cliente: Option<Cliente>)
    ensures
        match cliente {
            Some(c) => cliente_of_record(record.deep_view()) == Some(c@),
            None => cliente_of_record(record.deep_view()) is None,
        },
{
    let mut id = String::new();
    let mut nome = String::new();
    let mut email = String::new();
    let mut cpf_string = String::new();
    let mut data_criacao = String::new();
    let mut data_atualizacao = String::new();

    let ghost attributes = record.deep_view();
    let mut i: usize = 0;
    assert(attributes.take(0) =~= Seq::<AttributeView>::empty());
    while i < record.len()
        invariant
            i <= record.len(),
            attributes == record.deep_view(),
            id@ == attribute_text(attributes.take(i as int), ATTRIBUTE_ID@),
            nome@ == attribute_text(attributes.take(i as int), ATTRIBUTE_NOME@),
            email@ == attribute_text(attributes.take(i as int), ATTRIBUTE_EMAIL@),
            cpf_string@ == attribute_text(attributes.take(i as int), ATTRIBUTE_CPF@),
            data_criacao@ == attribute_text(attributes.take(i as int), ATTRIBUTE_DATA_CRIACAO@),
            data_atualizacao@ == attribute_text(
                attributes.take(i as int),
                ATTRIBUTE_DATA_ATUALIZACAO@,
            ),
        decreases record.len() - i,
    {
        let attribute = &record[i];
        let value = option_to_string(
            match &attribute.value {
                Some(text) => Some(text.as_str()),
                None => None,
            },
        );
        proof {
            lemma_attribute_names_differ();
            assert(attributes.take(i + 1).drop_last() =~= attributes.take(i as int));
            assert(attributes.take(i + 1).last() == attribute@);
        }
        let name = attribute.name.as_str();
        if same_text(name, ATTRIBUTE_ID) {
            id = value;
        } else if same_text(name, ATTRIBUTE_NOME) {
            nome = value;
        } else if same_text(name, ATTRIBUTE_EMAIL) {
            email = value;
        } else if same_text(name, ATTRIBUTE_CPF) {
            cpf_string = value;
        } else if same_text(name, ATTRIBUTE_DATA_CRIACAO) {
            data_criacao = value;
        } else if same_text(name, ATTRIBUTE_DATA_ATUALIZACAO) {
            data_atualizacao = value;
        }
        i += 1;
    }
    assert(attributes.take(record.len() as int) =~= attributes);

    match Cpf::new(cpf_string) {
        Ok(cpf) => match parse_usize(id.as_str()) {
            Some(id_value) => Some(
                Cliente::new(id_value, nome, email, cpf, data_criacao, data_atualizacao),
            ),
            None => None,
        },
        Err(_) => None,
    }
}

/// Turns the answer to a listing request into accounts. Records that stand
/// for no account are left out and the others still come; a failed request
/// gives `Invalid`.
pub fn get_clientes(response: Result<Vec<Vec<Attribute>>, DirectoryFailure>) -> (r: Result<
    Vec<Cliente>,
    DomainError,
>)
    ensures
        match response {
            Ok(records) => r matches Ok(clientes) && clientes.deep_view() == clientes_of_records(
                records.deep_view(),
            ),
            Err(_) => r matches Err(e) && e@ == DomainErrorView::Invalid(SUBJECT@),
        },
{
    match response {
        Ok(records) => {
            let mut clientes: Vec<Cliente> = Vec::new();
            let ghost all = records.deep_view();
            let mut i: usize = 0;
            assert(all.take(0) =~= Seq::<Seq<AttributeView>>::empty());
            while i < records.len()
                invariant
                    i <= records.len(),
                    all == records.deep_view(),
                    clientes.deep_view() == clientes_of_records(all.take(i as int)),
                decreases records.len() - i,
            {
                let ghost before = clientes.deep_view();
                proof {
                    assert(all.take(i + 1).drop_last() =~= all.take(i as int));
                    assert(all.take(i + 1).last() == records[i as int].deep_view());
                }
                match read_cliente(&records[i]) {
                    Some(cliente) => {
                        clientes.push(cliente);
                        assert(clientes.deep_view() =~= before + seq![cliente@]);
                    },
                    None => {},
                }
                i += 1;
            }
            assert(all.take(records.len() as int) =~= all);
            Ok(clientes)
        },
        Err(failure) => Err(failure_to_error(failure, SUBJECT)),
    }
}

/// Picks the account with the given CPF out of a listing. The directory cannot
/// be asked for one account by an attribute, so every lookup reads them all.
/// A listing that failed fails the lookup with the same error; only a listing
/// that came and holds no such account gives `NotFound`.
pub fn get_cliente_by_cpf(listing: Result<Vec<Cliente>, DomainError>, cpf: Cpf) -> (r: Result<
    Cliente,
    DomainError,
>)
    ensures
        match listing {
            Ok(clientes) => match first_with_cpf(clientes.deep_view(), cpf@) {
                Some(found) => r matches Ok(cliente) && cliente@ == found,
                None => r matches Err(e) && e@ == DomainErrorView::NotFound,
            },
            Err(error) => r matches Err(e) && e@ == error@,
        },
{
    let clientes = match listing {
        Ok(clientes) => clientes,
        Err(error) => {
            return Err(error);
        },
    };
    let ghost all = clientes.deep_view();
    let mut i: usize = 0;
    assert(all.skip(0) =~= all);
    while i < clientes.len()
        invariant
            i <= clientes.len(),
            listing == Ok::<Vec<Cliente>, DomainError>(clientes),
            all == clientes.deep_view(),
            first_with_cpf(all, cpf@) == first_with_cpf(all.skip(i as int), cpf@),
        decreases clientes.len() - i,
    {
        proof {
            assert(all.skip(i as int).first() == clientes[i as int]@);
            assert(all.skip(i as int).drop_first() =~= all.skip(i + 1));
        }
        if *cpf.value() == *clientes[i].cpf().value() {
            return Ok(clientes[i].clone());
        }
        i += 1;
    }
    Err(DomainError::NotFound)
}

/// Picks the account with the given identifier out of a listing, under the
/// same rules as [`get_cliente_by_cpf`].
pub fn get_cliente_by_id(listing: Result<Vec<Cliente>, DomainError>, id: usize) -> (r: Result<
    Cliente,
    DomainError,
>)
    ensures
        match listing {
            Ok(clientes) => match first_with_id(clientes.deep_view(), id) {
                Some(found) => r matches Ok(cliente) && cliente@ == found,
                None => r matches Err(e) && e@ == DomainErrorView::NotFound,
            },
            Err(error) => r matches Err(e) && e@ == error@,
        },
{
    let clientes = match listing {
        Ok(clientes) => clientes,
        Err(error) => {
            return Err(error);
        },
    };
    let ghost all = clientes.deep_view();
    let mut i: usize = 0;
    assert(all.skip(0) =~= all);
    while i < clientes.len()
        invariant
            i <= clientes.len(),
            listing == Ok::<Vec<Cliente>, DomainError>(clientes),
            all == clientes.deep_view(),
            first_with_id(all, id) == first_with_id(all.skip(i as int), id),
        decreases clientes.len() - i,
    {
        proof {
            assert(all.skip(i as int).first() == clientes[i as int]@);
            assert(all.skip(i as int).drop_first() =~= all.skip(i + 1));
        }
        if id == *clientes[i].id() {
            return Ok(clientes[i].clone());
        }
        i += 1;
    }
    Err(DomainError::NotFound)
}

/// Writes an account as the attributes under which the directory keeps it.
pub fn cliente_attributes(cliente: &Cliente) -> (attributes: Vec<Attribute>)
    ensures
        attributes.deep_view() == record_of_cliente(cliente@),
{
    let id = cliente.cpf().unpunctuated();
    let attribute_specs: Vec<(&str, &str)> = vec![
        (ATTRIBUTE_ID, id.as_str()),
        (ATTRIBUTE_NOME, cliente.nome().as_str()),
        (ATTRIBUTE_EMAIL, cliente.email().as_str()),
        (ATTRIBUTE_CPF, cliente.cpf().value().as_str()),
        (ATTRIBUTE_DATA_CRIACAO, cliente.data_criacao().as_str()),
        (ATTRIBUTE_DATA_ATUALIZACAO, cliente.data_atualizacao().as_str()),
    ];
    let attributes = build_attributes(&attribute_specs);
    assert(attributes.deep_view() =~= record_of_cliente(cliente@));
    attributes
}

/// The request that adds an account to the directory. The account goes under
/// its CPF without punctuation, which is its first password too.
pub fn create_cliente_request(cliente: &Cliente) -> (request: CreateUserRequest)
    ensures
        request.username@ == without_punctuation(cliente@.cpf),
        request.temporary_password@ == without_punctuation(cliente@.cpf),
        request.user_attributes.deep_view() == record_of_cliente(cliente@),
{
    CreateUserRequest {
        username: cliente.cpf().unpunctuated(),
        temporary_password: cliente.cpf().unpunctuated(),
        user_attributes: cliente_attributes(cliente),
    }
}

/// What the caller gets once the directory has answered a request to add
/// `cliente`: the account as it was handed in, or `Invalid`.
pub fn create_cliente(cliente: Cliente, outcome: Result<(), DirectoryFailure>) -> (r: Result<
    Cliente,
    DomainError,
>)
    ensures
        match outcome {
            Ok(_) => r matches Ok(created) && created@ == cliente@,
            Err(_) => r matches Err(e) && e@ == DomainErrorView::Invalid(SUBJECT@),
        },
{
    match outcome {
        Ok(_) => Ok(cliente),
        Err(failure) => Err(failure_to_error(failure, SUBJECT)),
    }
}

/// The request that removes the account with the given CPF, given a listing
/// of the directory. Where the listing came and shows no such account, there
/// is nothing to remove and no request to send: that is `NotFound`. A listing
/// that failed fails the deletion with the same error, so that an outage is
/// not taken for an absent account.
pub fn delete_cliente_request(listing: Result<Vec<Cliente>, DomainError>, cpf: &Cpf) -> (r: Result<
    DeleteUserRequest,
    DomainError,
>)
    ensures
        match listing {
            Ok(clientes) => match first_with_cpf(clientes.deep_view(), cpf@) {
                Some(_) => r matches Ok(request) && request.username@ == without_punctuation(
                    cpf@,
                ),
                None => r matches Err(e) && e@ == DomainErrorView::NotFound,
            },
            Err(error) => r matches Err(e) && e@ == error@,
        },
{
    match get_cliente_by_cpf(listing, cpf.clone()) {
        Ok(_) => Ok(DeleteUserRequest { username: cpf.unpunctuated() }),
        Err(error) => Err(error),
    }
}

/// What the caller gets once the directory has answered a request to remove
/// an account that a listing showed: nothing, or `Invalid`.
pub fn delete_cliente(outcome: Result<(), DirectoryFailure>) -> (r: Result<(), DomainError>)
    ensures
        match outcome {
            Ok(_) => r is Ok,
            Err(_) => r matches Err(e) && e@ == DomainErrorView::Invalid(SUBJECT@),
        },
{
    match outcome {
        Ok(_) => Ok(()),
        Err(failure) => Err(failure_to_error(failure, SUBJECT)),
    }
}

/// The account that is read back from the record of `cliente`: `cliente` under
/// the number that the digits of its CPF write, where a `usize` holds it.
pub open spec fn read_back(cliente: ClienteView) -> Option<ClienteView> {
    match decimal_usize(without_punctuation(cliente.cpf)) {
        Some(id) => Some(ClienteView { id, ..cliente }),
        None => None,
    }
}

/// Writing an account and reading the record gives the account back, but for
/// its identifier, which the directory derives from the CPF.
pub proof fn lemma_record_round_trip(cliente: ClienteView)
    requires
        is_canonical(cliente.cpf),
    ensures
        cliente_of_record(record_of_cliente(cliente)) == read_back(cliente),
        read_back(cliente) is Some <==> decimal_value(without_punctuation(cliente.cpf))
            <= usize::MAX,
{
    let record = record_of_cliente(cliente);
    let names = attribute_names();
    lemma_unpunctuated_is_number(cliente.cpf);
    lemma_attribute_names_differ();
    assert(record[0].name == names[0] && record[1].name == names[1] && record[2].name
        == names[2]);
    assert(record[3].name == names[3] && record[4].name == names[7] && record[5].name
        == names[8]);
    assert forall|i: int, j: int| 0 <= i < j < record.len() implies (#[trigger] record[i]).name != (
    #[trigger] record[j]).name by {
        let a = if i < 4 { i } else { i + 3 };
        let b = if j < 4 { j } else { j + 3 };
        assert(record[i].name == names[a]);
        assert(record[j].name == names[b]);
    }
    lemma_attribute_text_of_distinct(record, 0);
    lemma_attribute_text_of_distinct(record, 1);
    lemma_attribute_text_of_distinct(record, 2);
    lemma_attribute_text_of_distinct(record, 3);
    lemma_attribute_text_of_distinct(record, 4);
    lemma_attribute_text_of_distinct(record, 5);
}

/// A record that stands for no account changes nothing in a listing, wherever
/// it is put: the accounts of the other records come, and only they.
pub proof fn lemma_listing_skips_malformed(
    records: Seq<Seq<AttributeView>>,
    position: int,
    malformed: Seq<AttributeView>,
)
    requires
        0 <= position <= records.len(),
        cliente_of_record(malformed) is None,
    ensures
        clientes_of_records(records.insert(position, malformed)) == clientes_of_records(records),
{
    let before = records.take(position);
    let after = records.skip(position);
    assert(records.insert(position, malformed) =~= (before + seq![malformed]) + after);
    assert(records =~= before + after);
    lemma_filter_map_concat(before + seq![malformed], after, record_reader());
    lemma_filter_map_concat(before, seq![malformed], record_reader());
    lemma_filter_map_one(malformed, record_reader());
    lemma_filter_map_concat(before, after, record_reader());
    assert(before.filter_map(record_reader()) + Seq::<ClienteView>::empty()
        =~= before.filter_map(record_reader()));
}

/// A listing whose records all stand for accounts gives one account for each
/// record, in the order of the records.
pub proof fn lemma_listing_keeps_well_formed(records: Seq<Seq<AttributeView>>)
    requires
        forall|i: int| 0 <= i < records.len() ==> cliente_of_record(#[trigger] records[i]) is Some,
    ensures
        clientes_of_records(records).len() == records.len(),
        forall|i: int|
            0 <= i < records.len() ==> Some(#[trigger] clientes_of_records(records)[i])
                == cliente_of_record(records[i]),
{
    lemma_filter_map_total(records, record_reader());
}

/// A listing with one record that stands for no account among records that
/// all stand for one gives exactly the accounts of those, in their order.
pub proof fn lemma_listing_with_one_malformed(
    records: Seq<Seq<AttributeView>>,
    position: int,
    malformed: Seq<AttributeView>,
)
    requires
        0 <= position <= records.len(),
        cliente_of_record(malformed) is None,
        forall|i: int| 0 <= i < records.len() ==> cliente_of_record(#[trigger] records[i]) is Some,
    ensures
        clientes_of_records(records.insert(position, malformed)).len() == records.len(),
        forall|i: int|
            0 <= i < records.len() ==> Some(
                #[trigger] clientes_of_records(records.insert(position, malformed))[i],
            ) == cliente_of_record(records[i]),
{
    lemma_listing_skips_malformed(records, position, malformed);
    lemma_listing_keeps_well_formed(records);
}

/// An account that was written at the end of a directory is in the next
/// listing: a lookup by its CPF finds it, as it is read back, where no account
/// had that CPF before; and so does a lookup by the identifier it is read back
/// under, where no account had that identifier.
pub proof fn lemma_created_is_found(records: Seq<Seq<AttributeView>>, cliente: ClienteView)
    requires
        is_canonical(cliente.cpf),
        read_back(cliente) is Some,
        first_with_cpf(clientes_of_records(records), cliente.cpf) is None,
    ensures
        clientes_of_records(records.push(record_of_cliente(cliente))) == clientes_of_records(
            records,
        ).push(read_back(cliente).unwrap()),
        first_with_cpf(
            clientes_of_records(records.push(record_of_cliente(cliente))),
            cliente.cpf,
        ) == read_back(cliente),
        first_with_id(clientes_of_records(records), read_back(cliente).unwrap().id) is None
            ==> first_with_id(
            clientes_of_records(records.push(record_of_cliente(cliente))),
            read_back(cliente).unwrap().id,
        ) == read_back(cliente),
{
    let record = record_of_cliente(cliente);
    let found = read_back(cliente).unwrap();
    lemma_record_round_trip(cliente);
    assert(records.push(record) =~= records + seq![record]);
    lemma_filter_map_concat(records, seq![record], record_reader());
    lemma_filter_map_one(record, record_reader());
    assert(clientes_of_records(records) + seq![found] =~= clientes_of_records(records).push(found));
    lemma_first_with_cpf_push(clientes_of_records(records), found, cliente.cpf);
    lemma_first_with_id_push(clientes_of_records(records), found, found.id);
}

/// Where a `usize` has 64 bits, every account is read back from its record.
pub proof fn lemma_read_back_exists(cliente: ClienteView)
    requires
        is_canonical(cliente.cpf),
        usize::MAX >= LARGEST_CPF_NUMBER,
    ensures
        read_back(cliente) is Some,
        cliente_of_record(record_of_cliente(cliente)) == read_back(cliente),
{
    lemma_unpunctuated_fits(cliente.cpf);
    lemma_record_round_trip(cliente);
}

/// A listing in which the record of an account stands at `position` holds the
/// accounts of the records before it, then the account as it is read back,
/// then the accounts of the records after it.
pub proof fn lemma_listing_around_record(
    records: Seq<Seq<AttributeView>>,
    position: int,
    cliente: ClienteView,
)
    requires
        is_canonical(cliente.cpf),
        read_back(cliente) is Some,
        0 <= position < records.len(),
        records[position] == record_of_cliente(cliente),
    ensures
        clientes_of_records(records) == clientes_of_records(records.take(position)) + (
        seq![read_back(cliente).unwrap()] + clientes_of_records(records.skip(position + 1))),
{
    let record = records[position];
    let before = records.take(position);
    let after = records.skip(position + 1);
    lemma_record_round_trip(cliente);
    assert(records =~= before + (seq![record] + after));
    lemma_filter_map_concat(before, seq![record] + after, record_reader());
    lemma_filter_map_concat(seq![record], after, record_reader());
    lemma_filter_map_one(record, record_reader());
}

/// An account that was written to the directory is found by its CPF wherever
/// its record stands in the listing, with every attribute as it was written
/// and under the identifier that its CPF gives, as long as no record before
/// it stands for an account with the same CPF.
pub proof fn lemma_written_is_found_by_cpf(
    records: Seq<Seq<AttributeView>>,
    position: int,
    cliente: ClienteView,
)
    requires
        is_canonical(cliente.cpf),
        read_back(cliente) is Some,
        0 <= position < records.len(),
        records[position] == record_of_cliente(cliente),
        forall|i: int|
            0 <= i < position ==> (cliente_of_record(#[trigger] records[i]) matches Some(other)
                ==> other.cpf != cliente.cpf),
    ensures
        first_with_cpf(clientes_of_records(records), cliente.cpf) == read_back(cliente),
        read_back(cliente) == Some(ClienteView { id: read_back(cliente).unwrap().id, ..cliente }),
{
    let before = records.take(position);
    let listed_before = clientes_of_records(before);
    let found = read_back(cliente).unwrap();
    let rest = seq![found] + clientes_of_records(records.skip(position + 1));
    lemma_listing_around_record(records, position, cliente);
    lemma_first_with_cpf(listed_before, cliente.cpf);
    assert(first_with_cpf(listed_before, cliente.cpf) is None) by {
        if first_with_cpf(listed_before, cliente.cpf) is Some {
            let j = choose|j: int|
                0 <= j < listed_before.len() && (#[trigger] listed_before[j]).cpf == cliente.cpf;
            let other = listed_before[j];
            assert(listed_before.contains(other));
            before.lemma_filter_map_contains(record_reader(), other);
            let source = choose|source: Seq<AttributeView>| #[trigger]
                before.contains(source) && record_reader()(source) == Some(other);
            let i = choose|i: int| 0 <= i < before.len() && before[i] == source;
            assert(records[i] == source);
        }
    }
    lemma_first_with_cpf_concat(listed_before, rest, cliente.cpf);
    assert(rest.first() == found);
}

/// An account that was written to the directory is found by the identifier
/// that its CPF gives wherever its record stands in the listing, as long as
/// no record before it stands for an account with that identifier.
pub proof fn lemma_written_is_found_by_id(
    records: Seq<Seq<AttributeView>>,
    position: int,
    cliente: ClienteView,
)
    requires
        is_canonical(cliente.cpf),
        read_back(cliente) is Some,
        0 <= position < records.len(),
        records[position] == record_of_cliente(cliente),
        forall|i: int|
            0 <= i < position ==> (cliente_of_record(#[trigger] records[i]) matches Some(other)
                ==> other.id != read_back(cliente).unwrap().id),
    ensures
        first_with_id(clientes_of_records(records), read_back(cliente).unwrap().id) == read_back(cliente),
{
    let before = records.take(position);
    let listed_before = clientes_of_records(before);
    let found = read_back(cliente).unwrap();
    let rest = seq![found] + clientes_of_records(records.skip(position + 1));
    lemma_listing_around_record(records, position, cliente);
    lemma_first_with_id(listed_before, found.id);
    assert(first_with_id(listed_before, found.id) is None) by {
        if first_with_id(listed_before, found.id) is Some {
            let j = choose|j: int|
                0 <= j < listed_before.len() && (#[trigger] listed_before[j]).id == found.id;
            let other = listed_before[j];
            assert(listed_before.contains(other));
            before.lemma_filter_map_contains(record_reader(), other);
            let source = choose|source: Seq<AttributeView>| #[trigger]
                before.contains(source) && record_reader()(source) == Some(other);
            let i = choose|i: int| 0 <= i < before.len() && before[i] == source;
            assert(records[i] == source);
        }
    }
    lemma_first_with_id_concat(listed_before, rest, found.id);
    assert(rest.first() == found);
}

} // verus!
