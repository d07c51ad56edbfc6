//! Calls prepared for an external execution harness.

use crate::bundle::{Artifact, ArtifactView, FunctionArtifact, FunctionView};
use crate::error::{codegen, outcome_view, Error, ErrorView};
use crate::text::{concat3, decimal, decimal_text, hexadecimal, hexadecimal_text, same_text};
use vstd::prelude::*;

verus! {

/// The number of integer registers.
pub const SIA_REGISTER_COUNT: usize = 16;

/// The register of the first argument.
pub const SIA_ARGUMENT_REGISTER: usize = 1;

/// The register of the return address.
pub const SIA_LINK_REGISTER: usize = 14;

/// The number of arguments that travel in registers.
pub const SIA_MAX_INTEGER_ARGUMENTS: usize = 6;

/// A concrete SIA32 call prepared for an external Lighting execution harness.
///
/// Only architectural state is prepared here. The bytes and registers must be
/// consumed by Lighting's real execution path; this type must never grow a
/// host-side SIA interpreter or JIT fallback.
#[derive(Debug, Clone, PartialEq, Eq)]
pub struct CallPlan {
    /// C linkage name of the function being called.
    pub function: String,
    /// Address at which `code` must be loaded.
    pub entry_address: u32,
    /// Address expected after the compiled function returns through `lr`.
    pub return_address: u32,
    /// Native SIA32 bytes to load at `entry_address`.
    pub code: Vec<u8>,
    /// Complete initial architectural integer register state.
    pub registers: [u32; 16],
}

/// What a [`CallPlan`] holds.
pub struct CallPlanView {
    pub function: Seq<char>,
    pub entry_address: u32,
    pub return_address: u32,
    pub code: Seq<u8>,
    pub registers: Seq<u32>,
}

impl View for CallPlan {
    type V = CallPlanView;

    open spec fn view(&self) -> CallPlanView {
        CallPlanView {
            function: self.function@,
            entry_address: self.entry_address,
            return_address: self.return_address,
            code: self.code@,
            registers: self.registers@,
        }
    }
}

/// The bytes from `index` on in two hexadecimal digits each, separated by
/// spaces.
pub open spec fn code_text(code: Seq<u8>, index: nat) -> Seq<char>
    decreases code.len() - index,
{
    if index >= code.len() {
        Seq::empty()
    } else {
        let byte = hexadecimal(code[index as int] as nat, 2);
        (if index == 0 {
            byte
        } else {
            " "@ + byte
        }) + code_text(code, index + 1)
    }
}

/// The registers from `index` on with their values, separated by spaces.
pub open spec fn registers_text(registers: Seq<u32>, index: nat) -> Seq<char>
    decreases registers.len() - index,
{
    if index >= registers.len() {
        Seq::empty()
    } else {
        (if index == 0 {
            "r"@
        } else {
            " r"@
        }) + decimal(index) + "=0x"@ + hexadecimal(registers[index as int] as nat, 8)
            + registers_text(registers, index + 1)
    }
}

/// What a harness must report of a call that failed.
pub open spec fn diagnostic_text(plan: CallPlanView) -> Seq<char> {
    "function="@ + plan.function + " entry=0x"@ + hexadecimal(plan.entry_address as nat, 8)
        + " return=0x"@ + hexadecimal(plan.return_address as nat, 8) + " code=["@ + code_text(
        plan.code,
        0,
    ) + "] registers=["@ + registers_text(plan.registers, 0) + "]"@
}

impl CallPlan {
    /// The code in hexadecimal.
    fn render_code(&self) -> (text: String)
        ensures
            text@ == code_text(self.code@, 0),
    {
        let mut text = String::new();
        let mut index: usize = 0;
        assert(text@ + code_text(self.code@, 0) =~= code_text(self.code@, 0));
        while index < self.code.len()
            invariant
                index <= self.code@.len(),
                text@ + code_text(self.code@, index as nat) == code_text(self.code@, 0),
            decreases self.code@.len() - index,
        {
            let ghost before = text@;
            if index != 0 {
                text.append(" ");
            }
            text.append(hexadecimal_text(self.code[index] as u32, 2).as_str());
            assert(text@ + code_text(self.code@, index as nat + 1) =~= before + code_text(
                self.code@,
                index as nat,
            ));
            index += 1;
        }
        assert(text@ + code_text(self.code@, index as nat) =~= text@);
        text
    }

    /// The registers with their values.
    fn render_registers(&self) -> (text: String)
        ensures
            text@ == registers_text(self.registers@, 0),
    {
        let mut text = String::new();
        let mut index: usize = 0;
        assert(text@ + registers_text(self.registers@, 0) =~= registers_text(self.registers@, 0));
        while index < 16
            invariant
                index <= 16,
                text@ + registers_text(self.registers@, index as nat) == registers_text(
                    self.registers@,
                    0,
                ),
            decreases 16 - index,
        {
            let ghost before = text@;
            if index == 0 {
                text.append("r");
            } else {
                text.append(" r");
            }
            text.append(decimal_text(index as u64).as_str());
            text.append("=0x");
            text.append(hexadecimal_text(self.registers[index], 8).as_str());
            assert(text@ + registers_text(self.registers@, index as nat + 1) =~= before
                + registers_text(self.registers@, index as nat));
            index += 1;
        }
        assert(text@ + registers_text(self.registers@, index as nat) =~= text@);
        text
    }

    /// Render the bounded state that an execution-harness failure must report.
    pub fn diagnostic(&self) -> (text: String)
        ensures
            text@ == diagnostic_text(self@),
    {
        let mut text = concat3("function=", self.function.as_str(), " entry=0x");
        text.append(hexadecimal_text(self.entry_address, 8).as_str());
        text.append(" return=0x");
        text.append(hexadecimal_text(self.return_address, 8).as_str());
        text.append(" code=[");
        text.append(self.render_code().as_str());
        text.append("] registers=[");
        text.append(self.render_registers().as_str());
        text.append("]");
        text
    }
}

/// The position from `from` on of the first function with the name.
pub open spec fn function_position(functions: Seq<FunctionView>, name: Seq<char>, from: nat) -> Option<
    int,
>
    decreases functions.len() - from,
{
    if from >= functions.len() {
        None
    } else if functions[from as int].name == name {
        Some(from as int)
    } else {
        function_position(functions, name, from + 1)
    }
}

/// The registers at the start of a call: the arguments from the first
/// argument register on, the return address in the link register, and zero in
/// every other register.
pub open spec fn call_registers(arguments: Seq<u32>, return_address: u32) -> Seq<u32> {
    Seq::new(
        SIA_REGISTER_COUNT as nat,
        |i: int|
            if i == SIA_LINK_REGISTER {
                return_address
            } else if SIA_ARGUMENT_REGISTER <= i < SIA_ARGUMENT_REGISTER + arguments.len() {
                arguments[i - SIA_ARGUMENT_REGISTER]
            } else {
                0
            },
    )
}

/// The call of a named function.
pub open spec fn call_spec(
    artifact: ArtifactView,
    name: Seq<char>,
    entry_address: u32,
    arguments: Seq<u32>,
) -> Result<CallPlanView, ErrorView> {
    if entry_address % 2 != 0 {
        Err(ErrorView::Codegen("SIA call entry for "@ + name + " must be 2-byte aligned"@))
    } else if arguments.len() > SIA_MAX_INTEGER_ARGUMENTS {
        Err(
            ErrorView::Codegen(
                "SIA32 supports at most "@ + decimal(SIA_MAX_INTEGER_ARGUMENTS as nat)
                    + " scalar register arguments"@,
            ),
        )
    } else {
        match function_position(artifact.functions, name, 0) {
            None => Err(
                ErrorView::Codegen("COSMIC-SIA bundle has no function `"@ + name + "`"@),
            ),
            Some(position) => {
                let function = artifact.functions[position];
                let end = entry_address + function.code.len();
                if function.relocations.len() > 0 {
                    Err(
                        ErrorView::Codegen(
                            "SIA function `"@ + name
                                + "` requires linking before direct Lighting execution"@,
                        ),
                    )
                } else if function.code.len() > u32::MAX {
                    Err(ErrorView::Codegen("SIA function body exceeds 32-bit address space"@))
                } else if end > u32::MAX {
                    Err(ErrorView::Codegen("SIA function address range overflows"@))
                } else {
                    Ok(
                        CallPlanView {
                            function: function.name,
                            entry_address,
                            return_address: end as u32,
                            code: function.code,
                            registers: call_registers(arguments, end as u32),
                        },
                    )
                }
            },
        }
    }
}

impl Artifact {
    /// Return a function by its C linkage name.
    pub fn function(&self, name: &str) -> (result: Option<&FunctionArtifact>)
        ensures
            (match (function_position(self@.functions, name@, 0), result) {
                (Some(position), Some(function)) => 0 <= position < self.functions@.len()
                    && *function == self.functions@[position],
                (None, None) => true,
                _ => false,
            }),
    {
        let mut index: usize = 0;
        while index < self.functions.len()
            invariant
                index <= self.functions@.len(),
                function_position(self@.functions, name@, index as nat) == function_position(
                    self@.functions,
                    name@,
                    0,
                ),
            decreases self.functions@.len() - index,
        {
            let function = &self.functions[index];
            assert(self@.functions[index as int] == function@);
            if same_text(function.name.as_str(), name) {
                return Some(function);
            }
            index += 1;
        }
        None
    }

    /// Prepare one scalar SystemV SIA32 call for an external Lighting harness.
    ///
    /// A function without relocations can be loaded verbatim at an aligned
    /// address. `lr` is set immediately past the code so a normal return gives
    /// the harness one explicit return boundary.
    pub fn prepare_integer_call(&self, name: &str, entry_address: u32, arguments: &[u32]) -> (result:
        Result<CallPlan, Error>)
        ensures
            outcome_view(result) == call_spec(self@, name@, entry_address, arguments@),
    {
        if entry_address % 2 != 0 {
            let message = concat3("SIA call entry for ", name, " must be 2-byte aligned");
            return Err(codegen(message.as_str()));
        }
        if arguments.len() > SIA_MAX_INTEGER_ARGUMENTS {
            let message = concat3(
                "SIA32 supports at most ",
                decimal_text(SIA_MAX_INTEGER_ARGUMENTS as u64).as_str(),
                " scalar register arguments",
            );
            return Err(codegen(message.as_str()));
        }
        let function = match self.function(name) {
            Some(function) => function,
            None => {
                let message = concat3("COSMIC-SIA bundle has no function `", name, "`");
                return Err(codegen(message.as_str()));
            },
        };
        if function.relocations.len() > 0 {
            let message = concat3(
                "SIA function `",
                name,
                "` requires linking before direct Lighting execution",
            );
            return Err(codegen(message.as_str()));
        }
        if function.code.len() as u64 > 0xffff_ffff {
            return Err(codegen("SIA function body exceeds 32-bit address space"));
        }
        let return_address: u32 = match entry_address.checked_add(function.code.len() as u32) {
            Some(return_address) => return_address,
            None => {
                return Err(codegen("SIA function address range overflows"));
            },
        };
        let mut registers: [u32; 16] = [0; 16];
        let mut index: usize = 0;
        while index < arguments.len()
            invariant
                index <= arguments@.len() <= 6,
                forall|i: int|
                    0 <= i < 16 ==> #[trigger] registers@[i] == if 1 <= i < 1 + index {
                        arguments@[i - 1]
                    } else {
                        0
                    },
            decreases arguments@.len() - index,
        {
            registers[SIA_ARGUMENT_REGISTER + index] = arguments[index];
            index += 1;
        }
        registers[SIA_LINK_REGISTER] = return_address;
        assert(registers@ =~= call_registers(arguments@, return_address));
        Ok(
            CallPlan {
                function: function.name.clone(),
                entry_address,
                return_address,
                code: function.code.clone(),
                registers,
            },
        )
    }
}

/// A prepared call keeps register zero at zero, passes each argument in its
/// register, returns just past the code, and loads the code of the function
/// it names.
pub proof fn a_call_passes_its_arguments(
    artifact: ArtifactView,
    name: Seq<char>,
    entry_address: u32,
    arguments: Seq<u32>,
)
    requires
        call_spec(artifact, name, entry_address, arguments) is Ok,
    ensures
        ({
            let plan = call_spec(artifact, name, entry_address, arguments)->Ok_0;
            &&& plan.function == name
            &&& plan.registers.len() == 16
            &&& plan.registers[0] == 0
            &&& forall|i: int|
                0 <= i < arguments.len() ==> plan.registers[1 + i] == #[trigger] arguments[i]
            &&& plan.registers[14] == plan.return_address
            &&& plan.return_address == plan.entry_address + plan.code.len()
            &&& exists|i: int|
                0 <= i < artifact.functions.len() && #[trigger] artifact.functions[i].name == name
                    && artifact.functions[i].code == plan.code
                    && artifact.functions[i].relocations.len() == 0
        }),
{
    position_has_the_name(artifact.functions, name, 0);
}

proof fn position_has_the_name(functions: Seq<FunctionView>, name: Seq<char>, from: nat)
    ensures
        function_position(functions, name, from) matches Some(position) ==> from <= position
            < functions.len() && functions[position].name == name,
    decreases functions.len() - from,
{
    if from < functions.len() && functions[from as int].name != name {
        position_has_the_name(functions, name, from + 1);
    }
}

} // verus!
