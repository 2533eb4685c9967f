//! The function table: one record for each global function of the object.

use vstd::prelude::*;
use crate::bytes::append_range;
use crate::error::{Error, Field};
use crate::object::{
    Binding,
    ObjectFile,
    Symbol,
    SymbolKind,
    SymbolView,
    symbol_binding,
    symbol_kind,
};

verus! {

/// The largest value that a 16-bit field of a function record holds.
pub const FIELD_MAX: usize = 65535;

/// One record of the function table.
#[derive(Debug, Clone, Copy, PartialEq, Eq, Structural)]
pub struct FunctionSymbol {
    /// Where the function's name starts in the read-only data.
    pub name_offset: u16,
    /// Reserved; always zero.
    pub flags: u16,
    /// Where the function starts in the text.
    pub location_offset: u16,
}

/// The symbol is a function that other objects can call.
pub open spec fn is_global_function(symbol: SymbolView) -> bool {
    symbol_kind(symbol.kind) == SymbolKind::Function && symbol_binding(symbol.binding)
        == Binding::Global
}

/// The read-only data and the function table while the symbols are walked;
/// `error` is set by the first function that cannot be recorded, and nothing
/// changes after.
pub struct Catalog {
    pub rodata: Seq<u8>,
    pub functions: Seq<FunctionSymbol>,
    pub error: Option<Error>,
}

/// Records one symbol, if it is a global function: its name goes behind the
/// read-only data, and the record holds where the name starts and the
/// symbol's value. `names_start` is the length of the read-only data before
/// the first name.
pub open spec fn catalog_symbol(state: Catalog, symbol: SymbolView, names_start: nat) -> Catalog {
    if state.error is Some || !is_global_function(symbol) {
        state
    } else if symbol.name is None {
        Catalog { error: Some(Error::UnnamedFunction), ..state }
    } else if state.functions.len() >= FIELD_MAX {
        Catalog { error: Some(Error::Overflow(Field::FunctionCount)), ..state }
    } else if state.rodata.len() > FIELD_MAX {
        Catalog { error: Some(Error::Overflow(Field::NameOffset)), ..state }
    } else if symbol.value > FIELD_MAX {
        Catalog { error: Some(Error::Overflow(Field::LocationOffset)), ..state }
    } else if state.rodata.len() + symbol.name->0.len() - names_start > FIELD_MAX {
        Catalog { error: Some(Error::Overflow(Field::FunctionNames)), ..state }
    } else {
        Catalog {
            rodata: state.rodata + symbol.name->0,
            functions: state.functions.push(
                FunctionSymbol {
                    name_offset: state.rodata.len() as u16,
                    flags: 0,
                    location_offset: symbol.value as u16,
                },
            ),
            error: None,
        }
    }
}

/// Records the global functions among the first `n` symbols, in the order of
/// the symbol table.
pub open spec fn catalog_symbols(symbols: Seq<SymbolView>, rodata: Seq<u8>, n: nat) -> Catalog
    decreases n,
{
    if n == 0 {
        Catalog { rodata, functions: Seq::empty(), error: None }
    } else {
        catalog_symbol(
            catalog_symbols(symbols, rodata, (n - 1) as nat),
            symbols[n - 1],
            rodata.len(),
        )
    }
}

/// Records all global functions of a symbol table.
pub open spec fn catalog_all(symbols: Seq<SymbolView>, rodata: Seq<u8>) -> Catalog {
    catalog_symbols(symbols, rodata, symbols.len())
}

/// Recording functions only appends: the read-only data that was there
/// stays at the front.
pub proof fn lemma_catalog_appends(symbols: Seq<SymbolView>, rodata: Seq<u8>, n: nat)
    ensures
        rodata.len() <= catalog_symbols(symbols, rodata, n).rodata.len(),
        catalog_symbols(symbols, rodata, n).rodata.subrange(0, rodata.len() as int) == rodata,
    decreases n,
{
    if n == 0 {
        assert(rodata.subrange(0, rodata.len() as int) =~= rodata);
    } else {
        lemma_catalog_appends(symbols, rodata, (n - 1) as nat);
        let before = catalog_symbols(symbols, rodata, (n - 1) as nat);
        let after = catalog_symbols(symbols, rodata, n);
        assert(after.rodata.subrange(0, rodata.len() as int) =~= before.rodata.subrange(
            0,
            rodata.len() as int,
        ));
    }
}

/// The function table holds one record for each global function recorded,
/// never more than 65535, and each record has zero flags and names a place
/// in the read-only data.
pub proof fn lemma_catalog_records(symbols: Seq<SymbolView>, rodata: Seq<u8>, n: nat)
    requires
        n <= symbols.len(),
    ensures
        ({
            let catalog = catalog_symbols(symbols, rodata, n);
            &&& catalog.functions.len() <= n
            &&& catalog.functions.len() <= FIELD_MAX
            &&& catalog.rodata.len() - rodata.len() <= FIELD_MAX
            &&& forall|k: int|
                0 <= k < catalog.functions.len() ==> (#[trigger] catalog.functions[k]).flags == 0
                    && catalog.functions[k].name_offset <= catalog.rodata.len()
        }),
    decreases n,
{
    if n > 0 {
        lemma_catalog_records(symbols, rodata, (n - 1) as nat);
        lemma_catalog_appends(symbols, rodata, (n - 1) as nat);
    }
}

/// How many of the first `n` symbols are global functions.
pub open spec fn global_functions_before(symbols: Seq<SymbolView>, n: nat) -> nat
    decreases n,
{
    if n == 0 {
        0
    } else if is_global_function(symbols[n - 1]) {
        global_functions_before(symbols, (n - 1) as nat) + 1
    } else {
        global_functions_before(symbols, (n - 1) as nat)
    }
}

/// The function table follows the symbol table: where the first `n`
/// symbols are recorded without error, there is one record for each global
/// function among them, and the record of the global function with index
/// `i` stands at the place that the number of global functions before it
/// gives, whatever the values of the symbols are. The record holds the
/// symbol's value, and its name offset is where the symbol's name lies in
/// the read-only data.
pub proof fn lemma_catalog_keeps_symbol_order(
    symbols: Seq<SymbolView>,
    rodata: Seq<u8>,
    n: nat,
    i: int,
)
    requires
        n <= symbols.len(),
        catalog_symbols(symbols, rodata, n).error is None,
        0 <= i < n,
        is_global_function(symbols[i]),
    ensures
        ({
            let catalog = catalog_symbols(symbols, rodata, n);
            let place = global_functions_before(symbols, i as nat) as int;
            let record = catalog.functions[place];
            let name = symbols[i].name->0;
            &&& catalog.functions.len() == global_functions_before(symbols, n)
            &&& place < catalog.functions.len()
            &&& record.location_offset == symbols[i].value
            &&& record.flags == 0
            &&& symbols[i].name is Some
            &&& rodata.len() <= record.name_offset
            &&& record.name_offset + name.len() <= catalog.rodata.len()
            &&& catalog.rodata.subrange(
                record.name_offset as int,
                record.name_offset + name.len(),
            ) == name
        }),
    decreases n,
{
    let before = catalog_symbols(symbols, rodata, (n - 1) as nat);
    let after = catalog_symbols(symbols, rodata, n);
    lemma_catalog_counts(symbols, rodata, n);
    lemma_catalog_counts(symbols, rodata, (n - 1) as nat);
    lemma_catalog_appends(symbols, rodata, (n - 1) as nat);
    lemma_global_functions_before_grows(symbols, i as nat, (n - 1) as nat);
    if i == n - 1 {
        let name = symbols[i].name->0;
        assert(after.rodata.subrange(
            before.rodata.len() as int,
            (before.rodata.len() + name.len()) as int,
        )
            =~= name);
    } else {
        lemma_catalog_keeps_symbol_order(symbols, rodata, (n - 1) as nat, i);
        let place = global_functions_before(symbols, i as nat) as int;
        let record = before.functions[place];
        let name = symbols[i].name->0;
        assert(after.functions[place] == record);
        assert(after.rodata.subrange(record.name_offset as int, record.name_offset + name.len())
            =~= before.rodata.subrange(record.name_offset as int, record.name_offset + name.len()));
    }
}

/// Where the first `n` symbols are recorded without error, the table holds
/// one record for each global function among them.
pub proof fn lemma_catalog_counts(symbols: Seq<SymbolView>, rodata: Seq<u8>, n: nat)
    requires
        n <= symbols.len(),
        catalog_symbols(symbols, rodata, n).error is None,
    ensures
        catalog_symbols(symbols, rodata, n).functions.len() == global_functions_before(symbols, n),
    decreases n,
{
    if n > 0 {
        lemma_catalog_counts(symbols, rodata, (n - 1) as nat);
    }
}

/// The number of global functions before a symbol does not fall as the
/// symbol moves on.
proof fn lemma_global_functions_before_grows(symbols: Seq<SymbolView>, n: nat, m: nat)
    requires
        n <= m,
    ensures
        global_functions_before(symbols, n) <= global_functions_before(symbols, m),
        n < m && is_global_function(symbols[n as int]) ==> global_functions_before(symbols, n)
            < global_functions_before(symbols, m),
    decreases m - n,
{
    if n < m {
        lemma_global_functions_before_grows(symbols, n, (m - 1) as nat);
    }
}

/// Whether the symbol is a function that other objects can call.
pub fn is_global_function_symbol(symbol: &Symbol) -> (r: bool)
    ensures
        r == is_global_function(symbol@),
{
    match symbol.kind() {
        SymbolKind::Function => match symbol.binding() {
            Binding::Global => true,
            _ => false,
        },
        _ => false,
    }
}

/// Walks the symbol table in order and, for every global function, appends
/// its name to `rodata` and adds a record with the offset of the name, zero
/// flags and the symbol's value. Fails with [`Error::UnnamedFunction`] on a
/// function without a name and with [`Error::Overflow`] where the number of
/// functions, an offset or the total size of the names leaves the 16-bit
/// range; `rodata` then holds the names appended before.
pub fn build_function_catalog(object: &ObjectFile, rodata: &mut Vec<u8>) -> (r: Result<
    Vec<FunctionSymbol>,
    Error,
>)
    ensures
        final(rodata)@ == catalog_all(object@.symbols, old(rodata)@).rodata,
        match catalog_all(object@.symbols, old(rodata)@).error {
            Some(e) => r == Err::<Vec<FunctionSymbol>, Error>(e),
            None => r matches Ok(functions) && functions@ == catalog_all(
                object@.symbols,
                old(rodata)@,
            ).functions,
        },
{
    let mut functions: Vec<FunctionSymbol> = Vec::new();
    let start: usize = rodata.len();
    let mut i: usize = 0;
    while i < object.symbols.len()
        invariant
            i <= object.symbols.len(),
            start == old(rodata)@.len(),
            start <= rodata@.len(),
            catalog_symbols(object@.symbols, old(rodata)@, i as nat) == (Catalog {
                rodata: rodata@,
                functions: functions@,
                error: None,
            }),
        decreases object.symbols.len() - i,
    {
        let symbol = &object.symbols[i];
        let ghost before = catalog_symbols(object@.symbols, old(rodata)@, i as nat);
        let ghost after = catalog_symbols(object@.symbols, old(rodata)@, (i + 1) as nat);
        assert(after == catalog_symbol(before, symbol@, start as nat));
        if is_global_function_symbol(symbol) {
            let failure: Option<Error> = match &symbol.name {
                None => Some(Error::UnnamedFunction),
                Some(name) => if functions.len() >= FIELD_MAX {
                    Some(Error::Overflow(Field::FunctionCount))
                } else if rodata.len() > FIELD_MAX {
                    Some(Error::Overflow(Field::NameOffset))
                } else if symbol.value > FIELD_MAX as u64 {
                    Some(Error::Overflow(Field::LocationOffset))
                } else if name.len() > FIELD_MAX - (rodata.len() - start) {
                    Some(Error::Overflow(Field::FunctionNames))
                } else {
                    let record = FunctionSymbol {
                        name_offset: rodata.len() as u16,
                        flags: 0,
                        location_offset: symbol.value as u16,
                    };
                    append_range(rodata, name.as_slice(), 0, name.len());
                    assert(name@.subrange(0, name@.len() as int) == name@);
                    functions.push(record);
                    None
                },
            };
            if let Some(e) = failure {
                proof {
                    lemma_error_is_kept(
                        object@.symbols,
                        old(rodata)@,
                        (i + 1) as nat,
                        object@.symbols.len(),
                    );
                }
                return Err(e);
            }
        }
        i += 1;
    }
    Ok(functions)
}

/// Once a function has failed to be recorded, the symbols after it change
/// nothing.
proof fn lemma_error_is_kept(symbols: Seq<SymbolView>, rodata: Seq<u8>, n: nat, m: nat)
    requires
        n <= m,
        catalog_symbols(symbols, rodata, n).error is Some,
    ensures
        catalog_symbols(symbols, rodata, m) == catalog_symbols(symbols, rodata, n),
    decreases m - n,
{
    if n < m {
        lemma_error_is_kept(symbols, rodata, n, (m - 1) as nat);
    }
}

} // verus!
