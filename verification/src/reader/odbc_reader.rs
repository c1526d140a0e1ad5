//! What a reader decides: the strategies for the columns of a schema, the buffers that are
//! bound for them, and what comes of each fetch.
use crate::buffer::BufferDesc;
use crate::columns::{column_len, ArrowColumn};
use crate::driver::slice_rows;
use crate::error::{Error, MappingError};
use crate::reader::column_strategy::{
    as_column_strategy, choose_column_strategy, chosen_by_sql_type, column_chosen,
    needs_sql_type, BufferAllocationOptions, ColumnStrategy,
};
use crate::reader::read_strategy::ReadStrategy;
use crate::reader::text::{
    length_of_type, text_strategy_chosen, text_strategy_decided, TextEncoding, TextStrategy,
};
use crate::schema::{Field, LogicalType};
use odbc_api::buffers::AnyColumnBufferSlice;
use odbc_api::DataType;
use vstd::prelude::*;

verus! {

/// A strategy that may be chosen where the driver gives some of the answers `types1` and
/// `sizes1`, may be chosen where it gives some of more answers.
pub proof fn lemma_column_chosen_widens<E>(
    chosen: Result<ColumnStrategy, Error<E>>,
    field: Field,
    types1: spec_fn(Result<DataType, E>) -> bool,
    sizes1: spec_fn(Result<Option<isize>, E>) -> bool,
    types2: spec_fn(Result<DataType, E>) -> bool,
    sizes2: spec_fn(Result<Option<isize>, E>) -> bool,
    options: BufferAllocationOptions,
    encoding: TextEncoding,
)
    requires
        column_chosen(chosen, field, types1, sizes1, options, encoding),
        forall|described: Result<DataType, E>| #[trigger] types1(described) ==> types2(described),
        forall|answer: Result<Option<isize>, E>| #[trigger] sizes1(answer) ==> sizes2(answer),
    ensures
        column_chosen(chosen, field, types2, sizes2, options, encoding),
{
    if needs_sql_type(field.data_type) {
        let described = choose|described: Result<DataType, E>|
            {
                &&& #[trigger] types1(described)
                &&& chosen_by_sql_type(
                    chosen,
                    field.data_type,
                    field.nullable,
                    described,
                    sizes1,
                    options,
                    encoding,
                )
            };
        assert(types2(described));
        if described is Ok && field.data_type != LogicalType::Binary {
            let sql_type = described->Ok_0;
            let decided = choose|decided: Result<TextStrategy, Error<E>>|
                {
                    &&& #[trigger] text_strategy_decided(
                        decided,
                        sql_type,
                        encoding,
                        sizes1,
                        options.max_text_size,
                        options.assume_indicators_are_memory_garbage,
                    )
                    &&& chosen == as_column_strategy(decided)
                };
            if length_of_type(sql_type, encoding) is None {
                let answer = choose|answer: Result<Option<isize>, E>|
                    #[trigger] sizes1(answer) && decided == text_strategy_chosen(
                        sql_type,
                        encoding,
                        None,
                        answer,
                        options.max_text_size,
                        options.assume_indicators_are_memory_garbage,
                    );
                assert(sizes2(answer));
            }
            assert(text_strategy_decided(
                decided,
                sql_type,
                encoding,
                sizes2,
                options.max_text_size,
                options.assume_indicators_are_memory_garbage,
            ));
        }
        assert(chosen_by_sql_type(
            chosen,
            field.data_type,
            field.nullable,
            described,
            sizes2,
            options,
            encoding,
        ));
    }
}

/// The answers that `ask` may give for each column.
pub open spec fn answers_of<R, F: Fn(u16) -> R>(ask: F) -> spec_fn(u16, R) -> bool {
    |index: u16, answer: R| call_ensures(ask, (index,), answer)
}

/// True where `chosen` is what choosing a strategy may give for column `index` of a result
/// set, the first being column 1, where `types` and `sizes` are the answers that the driver
/// may give for each column.
pub open spec fn chosen_for_column<E>(
    chosen: Result<ColumnStrategy, Error<E>>,
    field: Field,
    index: u16,
    types: spec_fn(u16, Result<DataType, E>) -> bool,
    sizes: spec_fn(u16, Result<Option<isize>, E>) -> bool,
    options: BufferAllocationOptions,
    encoding: TextEncoding,
) -> bool {
    column_chosen(
        chosen,
        field,
        |described: Result<DataType, E>| types(index, described),
        |answer: Result<Option<isize>, E>| sizes(index, answer),
        options,
        encoding,
    )
}

/// True where there is a strategy that may be chosen for column `index`.
pub open spec fn has_strategy<E>(
    field: Field,
    index: u16,
    types: spec_fn(u16, Result<DataType, E>) -> bool,
    sizes: spec_fn(u16, Result<Option<isize>, E>) -> bool,
    options: BufferAllocationOptions,
    encoding: TextEncoding,
) -> bool {
    exists|strategy: ColumnStrategy|
        chosen_for_column(
            Ok::<ColumnStrategy, Error<E>>(strategy),
            field,
            index,
            types,
            sizes,
            options,
            encoding,
        )
}

/// True where `strategies` holds, for each field of `schema` in order, a strategy that may
/// be chosen for it.
pub open spec fn strategies_chosen<E>(
    strategies: Seq<ColumnStrategy>,
    schema: Seq<Field>,
    types: spec_fn(u16, Result<DataType, E>) -> bool,
    sizes: spec_fn(u16, Result<Option<isize>, E>) -> bool,
    options: BufferAllocationOptions,
    encoding: TextEncoding,
) -> bool {
    &&& strategies.len() == schema.len()
    &&& forall|i: int|
        0 <= i < schema.len() ==> chosen_for_column(
            Ok::<ColumnStrategy, Error<E>>(#[trigger] strategies[i]),
            schema[i],
            (i + 1) as u16,
            types,
            sizes,
            options,
            encoding,
        )
}

/// Chooses a strategy for every column of `schema`, one after the other, and stops at the
/// first column that has none. `sql_type_of` and `display_size_of` ask the driver about a
/// column, the first being column 1, and are called only for what the strategy of a column
/// needs. ODBC numbers columns with 16 bits.
pub fn column_strategies<
    E,
    T: Fn(u16) -> Result<DataType, E>,
    D: Fn(u16) -> Result<Option<isize>, E>,
>(
    schema: &Vec<Field>,
    sql_type_of: T,
    display_size_of: D,
    options: BufferAllocationOptions,
    encoding: TextEncoding,
) -> (r: Result<Vec<ColumnStrategy>, Error<E>>)
    requires
        schema@.len() <= u16::MAX,
        forall|index: u16| call_requires(sql_type_of, (index,)),
        forall|index: u16| call_requires(display_size_of, (index,)),
    ensures
        match r {
            Ok(strategies) => strategies_chosen(
                strategies@,
                schema@,
                answers_of(sql_type_of),
                answers_of(display_size_of),
                options,
                encoding,
            ),
            Err(e) => exists|i: int|
                {
                    &&& 0 <= i < schema@.len()
                    &&& #[trigger] chosen_for_column(
                        Err::<ColumnStrategy, Error<E>>(e),
                        schema@[i],
                        (i + 1) as u16,
                        answers_of(sql_type_of),
                        answers_of(display_size_of),
                        options,
                        encoding,
                    )
                    &&& forall|j: int|
                        0 <= j < i ==> has_strategy(
                            #[trigger] schema@[j],
                            (j + 1) as u16,
                            answers_of(sql_type_of),
                            answers_of(display_size_of),
                            options,
                            encoding,
                        )
                },
        },
{
    let ghost types = answers_of(sql_type_of);
    let ghost sizes = answers_of(display_size_of);
    let mut strategies: Vec<ColumnStrategy> = Vec::new();
    let mut i: usize = 0;
    while i < schema.len()
        invariant
            i <= schema@.len(),
            schema@.len() <= u16::MAX,
            forall|index: u16| call_requires(sql_type_of, (index,)),
            forall|index: u16| call_requires(display_size_of, (index,)),
            types == answers_of(sql_type_of),
            sizes == answers_of(display_size_of),
            strategies@.len() == i,
            forall|k: int|
                0 <= k < i ==> chosen_for_column(
                    Ok::<ColumnStrategy, Error<E>>(#[trigger] strategies@[k]),
                    schema@[k],
                    (k + 1) as u16,
                    types,
                    sizes,
                    options,
                    encoding,
                ),
        decreases schema@.len() - i,
    {
        let index: u16 = (i + 1) as u16;
        let lazy_sql_type = || -> (described: Result<DataType, E>)
            requires
                call_requires(sql_type_of, (index,)),
            ensures
                call_ensures(sql_type_of, (index,), described),
            { sql_type_of(index) };
        let lazy_display_size = || -> (answer: Result<Option<isize>, E>)
            requires
                call_requires(display_size_of, (index,)),
            ensures
                call_ensures(display_size_of, (index,), answer),
            { display_size_of(index) };
        let ghost types1 = |described: Result<DataType, E>|
            call_ensures(lazy_sql_type, (), described);
        let ghost sizes1 = |answer: Result<Option<isize>, E>|
            call_ensures(lazy_display_size, (), answer);
        let chosen = choose_column_strategy(
            &schema[i],
            lazy_sql_type,
            lazy_display_size,
            options,
            encoding,
        );
        proof {
            lemma_column_chosen_widens(
                chosen,
                schema@[i as int],
                types1,
                sizes1,
                |described: Result<DataType, E>| types(index, described),
                |answer: Result<Option<isize>, E>| sizes(index, answer),
                options,
                encoding,
            );
        }
        match chosen {
            Ok(strategy) => {
                strategies.push(strategy);
            },
            Err(e) => {
                assert(chosen_for_column(
                    Err::<ColumnStrategy, Error<E>>(e),
                    schema@[i as int],
                    (i + 1) as u16,
                    types,
                    sizes,
                    options,
                    encoding,
                ));
                assert forall|j: int| 0 <= j < i implies has_strategy(
                    #[trigger] schema@[j],
                    (j + 1) as u16,
                    types,
                    sizes,
                    options,
                    encoding,
                ) by {
                    assert(chosen_for_column(
                        Ok::<ColumnStrategy, Error<E>>(strategies@[j]),
                        schema@[j],
                        (j + 1) as u16,
                        types,
                        sizes,
                        options,
                        encoding,
                    ));
                }
                return Err(e);
            },
        }
        i = i + 1;
    }
    Ok(strategies)
}

/// Describes the buffers that are bound to the columns: one for each strategy, in order.
pub fn buffer_descs<S: ReadStrategy>(column_strategies: &Vec<S>) -> (r: Vec<BufferDesc>)
    ensures
        r@.len() == column_strategies@.len(),
        forall|i: int|
            0 <= i < r@.len() ==> #[trigger] r@[i] == column_strategies@[i].spec_buffer_desc(),
{
    let mut descs: Vec<BufferDesc> = Vec::new();
    let mut i: usize = 0;
    while i < column_strategies.len()
        invariant
            i <= column_strategies@.len(),
            descs@.len() == i,
            forall|k: int|
                0 <= k < i ==> #[trigger] descs@[k] == column_strategies@[k].spec_buffer_desc(),
        decreases column_strategies@.len() - i,
    {
        descs.push(column_strategies[i].buffer_desc());
        i = i + 1;
    }
    descs
}

/// What a fetch has left in the bound buffer: the number of rows that it filled, and the
/// columns of the buffer, each cut down to those rows.
pub struct RawBatch<'a> {
    pub num_rows: usize,
    pub columns: Vec<AnyColumnBufferSlice<'a>>,
}

impl<'a> RawBatch<'a> {
    /// Every column gives access to as many rows as the batch has.
    pub open spec fn wf(self) -> bool {
        forall|i: int|
            0 <= i < self.columns@.len() ==> slice_rows(#[trigger] self.columns@[i])
                == self.num_rows
    }
}

/// True where every strategy can read its column of `batch`.
pub open spec fn readable<S: ReadStrategy>(strategies: Seq<S>, batch: RawBatch<'_>) -> bool {
    &&& batch.wf()
    &&& batch.columns@.len() == strategies.len()
    &&& forall|i: int|
        0 <= i < strategies.len() ==> (#[trigger] strategies[i]).reads(batch.columns@[i])
}

/// True where the strategy makes an array of the column.
pub open spec fn fills_array<S: ReadStrategy>(
    strategy: S,
    column_view: AnyColumnBufferSlice<'_>,
) -> bool {
    exists|column: ArrowColumn| strategy.fills(column_view, Ok(column))
}

/// True where `converted` is what the strategies make of `batch`: an array for each column,
/// as long as the batch has rows, or the failure of the first column that could not be
/// filled.
pub open spec fn batch_converted<S: ReadStrategy>(
    strategies: Seq<S>,
    batch: RawBatch<'_>,
    converted: Result<Seq<ArrowColumn>, MappingError>,
) -> bool {
    match converted {
        Ok(columns) => {
            &&& columns.len() == strategies.len()
            &&& forall|i: int|
                0 <= i < columns.len() ==> {
                    &&& strategies[i].fills(batch.columns@[i], Ok(#[trigger] columns[i]))
                    &&& column_len(columns[i]) == batch.num_rows
                }
        },
        Err(e) => exists|i: int|
            {
                &&& 0 <= i < strategies.len()
                &&& (#[trigger] strategies[i]).fills(batch.columns@[i], Err(e))
                &&& forall|j: int|
                    0 <= j < i ==> fills_array(#[trigger] strategies[j], batch.columns@[j])
            },
    }
}

/// Fills an array for each column of the batch with the strategy of that column. The first
/// column that cannot be filled ends the conversion.
pub fn odbc_batch_to_arrow_columns<S: ReadStrategy>(
    column_strategies: &Vec<S>,
    batch: &RawBatch<'_>,
) -> (r: Result<Vec<ArrowColumn>, MappingError>)
    requires
        readable(column_strategies@, *batch),
    ensures
        batch_converted(
            column_strategies@,
            *batch,
            match r {
                Ok(columns) => Ok(columns@),
                Err(e) => Err(e),
            },
        ),
{
    let mut columns: Vec<ArrowColumn> = Vec::new();
    let mut i: usize = 0;
    while i < column_strategies.len()
        invariant
            i <= column_strategies@.len(),
            readable(column_strategies@, *batch),
            columns@.len() == i,
            forall|k: int|
                0 <= k < i ==> {
                    &&& column_strategies@[k].fills(batch.columns@[k], Ok(#[trigger] columns@[k]))
                    &&& column_len(columns@[k]) == batch.num_rows
                },
        decreases column_strategies@.len() - i,
    {
        let column_view: AnyColumnBufferSlice<'_> = batch.columns[i];
        assert(column_strategies@[i as int].reads(column_view));
        assert(slice_rows(batch.columns@[i as int]) == batch.num_rows);
        match column_strategies[i].fill_arrow_array(column_view) {
            Ok(column) => {
                columns.push(column);
            },
            Err(e) => {
                assert forall|j: int| 0 <= j < i implies fills_array(
                    #[trigger] column_strategies@[j],
                    batch.columns@[j],
                ) by {
                    assert(column_strategies@[j].fills(batch.columns@[j], Ok(columns@[j])));
                }
                assert(column_strategies@[i as int].fills(batch.columns@[i as int], Err(e)));
                return Err(e);
            },
        }
        i = i + 1;
    }
    Ok(columns)
}

/// The arrays made of one batch, one for each field of the schema, each with one value for
/// each row of the batch.
pub struct OutputBatch {
    pub num_rows: usize,
    pub columns: Vec<ArrowColumn>,
}

/// Why a reader has no batch to hand out.
#[derive(Debug)]
pub enum BatchError<E> {
    /// The driver failed to fetch the batch.
    Fetch(E),
    /// The batch was fetched, and one of its columns could not be turned into an array.
    Mapping(MappingError),
}

/// True where `item` is what a reader hands out after the fetch `fetched`: nothing at the
/// end of the result set, the error of the driver, or what its strategies make of the batch.
pub open spec fn item_of<E, S: ReadStrategy>(
    fetched: Result<Option<RawBatch<'_>>, E>,
    strategies: Seq<S>,
    item: Option<Result<OutputBatch, BatchError<E>>>,
) -> bool {
    match fetched {
        Err(e) => item == Some(Err::<OutputBatch, BatchError<E>>(BatchError::Fetch(e))),
        Ok(None) => item is None,
        Ok(Some(batch)) => match item {
            None => false,
            Some(Err(BatchError::Fetch(_))) => false,
            Some(Err(BatchError::Mapping(e))) => batch_converted(strategies, batch, Err(e)),
            Some(Ok(output)) => {
                &&& output.num_rows == batch.num_rows
                &&& batch_converted(strategies, batch, Ok(output.columns@))
            },
        },
    }
}

/// What a reader hands out once the driver has been asked for the next batch: the batch
/// turned into arrays, the error that kept it from that, or nothing once the result set is
/// at its end.
pub fn next<E, S: ReadStrategy>(
    fetched: Result<Option<RawBatch<'_>>, E>,
    column_strategies: &Vec<S>,
) -> (r: Option<Result<OutputBatch, BatchError<E>>>)
    requires
        fetched matches Ok(Some(batch)) ==> readable(column_strategies@, batch),
    ensures
        item_of(fetched, column_strategies@, r),
{
    match fetched {
        // A batch has come from the database. It is copied into arrays, and an error in that is
        // handed on.
        Ok(Some(batch)) => {
            match odbc_batch_to_arrow_columns(column_strategies, &batch) {
                Ok(columns) => Some(Ok(OutputBatch { num_rows: batch.num_rows, columns })),
                Err(e) => Some(Err(BatchError::Mapping(e))),
            }
        },
        // The result set has no more batches.
        Ok(None) => None,
        // Fetching the next batch has failed.
        Err(e) => Some(Err(BatchError::Fetch(e))),
    }
}

/// In every batch that a reader hands out there is one array for each strategy, and so for
/// each field of the schema, and each array is as long as the batch has rows.
pub proof fn lemma_batch_shape<E, S: ReadStrategy>(
    fetched: Result<Option<RawBatch<'_>>, E>,
    strategies: Seq<S>,
    output: OutputBatch,
)
    requires
        item_of(fetched, strategies, Some(Ok::<OutputBatch, BatchError<E>>(output))),
    ensures
        fetched matches Ok(Some(batch)) && output.num_rows == batch.num_rows,
        output.columns@.len() == strategies.len(),
        forall|i: int|
            0 <= i < output.columns@.len() ==> column_len(#[trigger] output.columns@[i])
                == output.num_rows,
{
}

} // verus!
