//! The target-independent half of the build configuration: which
//! microcontroller is built for, the generated-source buffer, and the
//! generated initialization function.

use vstd::prelude::*;

use crate::k20;
use crate::k20::builder::McuSpecificConfig;
use crate::seq_util::concat_map;
use crate::target::Target;

verus! {

/// The family of the microcontroller.
#[derive(Clone, Copy)]
pub enum McuClass {
    K20,
}

/// The concrete microcontroller part.
#[derive(Clone, Copy, Debug)]
pub enum McuType {
    Mk20dx256vlh7,
    Unimplemented,
}

/// Where a code fragment is placed inside the generated initialization
/// function; fragments run in ascending position order.
pub enum InitPart {
    /// e.g. disable the watchdog
    Pos00Earliest,
    /// e.g. initialize static memory
    Pos05Early,
    /// set up clocks
    Pos10Early,
    /// set up peripherals
    Pos40Main,
    /// set up other things
    Pos60Late,
    /// initialize drivers for the user startup function
    Pos80Usr,
}

impl InitPart {
    /// The numeric position of this part.
    pub open spec fn spec_index(&self) -> int {
        match *self {
            InitPart::Pos00Earliest => 0,
            InitPart::Pos05Early => 5,
            InitPart::Pos10Early => 10,
            InitPart::Pos40Main => 40,
            InitPart::Pos60Late => 60,
            InitPart::Pos80Usr => 80,
        }
    }

    /// The numeric position of this part.
    pub fn index(&self) -> (r: usize)
        ensures
            r as int == self.spec_index(),
    {
        match *self {
            InitPart::Pos00Earliest => 0,
            InitPart::Pos05Early => 5,
            InitPart::Pos10Early => 10,
            InitPart::Pos40Main => 40,
            InitPart::Pos60Late => 60,
            InitPart::Pos80Usr => 80,
        }
    }
}

pub const FUNCTION_HEADER: &'static str = r#"

#[inline(always)]
pub fn startup() {
"#;

pub const FUNCTION_FOOTER: &'static str = r#"
}

"#;

pub const INIT_MEM_CODE: &'static str = r#"
        mem_init::init_stack();
        mem_init::init_data();
        "#;

/// The views of a list of strings.
pub open spec fn strings_views(s: Seq<String>) -> Seq<Seq<char>> {
    s.map_values(|x: String| x@)
}

/// The views of all code fragments of the position buckets, in position
/// order.
pub open spec fn buckets_views(code: Seq<Vec<String>>) -> Seq<Seq<char>> {
    concat_map(code, |b: Vec<String>| strings_views(b@))
}

/// The generated initialization function: its `use` statements and one
/// bucket of code fragments per position, 99 buckets in all.
pub struct InitFunction {
    pub usestatements: Vec<String>,
    pub code: Vec<Vec<String>>,
}

impl InitFunction {
    /// The bucket list always holds one bucket per position.
    pub open spec fn wf(&self) -> bool {
        self.code@.len() == 99
    }

    /// An initialization function with nothing in it.
    pub fn empty() -> (r: InitFunction)
        ensures
            r.wf(),
            r.usestatements@.len() == 0,
            forall|k: int| 0 <= k < 99 ==> (#[trigger] r.code@[k])@.len() == 0,
    {
        let mut code: Vec<Vec<String>> = Vec::new();
        for i in 0..99usize
            invariant
                code@.len() == i,
                forall|k: int| 0 <= k < i ==> (#[trigger] code@[k])@.len() == 0,
        {
            code.push(Vec::new());
        }
        InitFunction { usestatements: Vec::new(), code }
    }

    /// The shape of the default initialization function: exactly the
    /// memory-initialization fragment among the early code and its one
    /// `use` statement.
    pub open spec fn is_default(&self) -> bool {
        &&& self.wf()
        &&& self.usestatements@.len() == 1
        &&& self.usestatements@[0]@ == "\nuse "@ + "zinc::hal::mem_init"@ + ";"@
        &&& (self.code@[5])@.len() == 1
        &&& (self.code@[5])@[0]@ == INIT_MEM_CODE@
        &&& forall|k: int| 0 <= k < 99 && k != 5 ==> (#[trigger] self.code@[k])@.len() == 0
    }

    /// The default initialization function: static memory is initialized
    /// early, through `zinc::hal::mem_init`.
    pub fn default() -> (r: InitFunction)
        ensures
            r.is_default(),
    {
        let mut new = Self::empty();
        new.add(InitPart::Pos05Early, INIT_MEM_CODE);
        new.usetype("zinc::hal::mem_init");
        new
    }

    /// Appends a code fragment to the bucket of the given position.
    pub fn add(&mut self, part: InitPart, code: &str)
        requires
            old(self).wf(),
        ensures
            final(self).wf(),
            final(self).usestatements == old(self).usestatements,
            final(self).code@.len() == 99,
            (final(self).code@[part.spec_index()])@.len() == (old(self).code@[part.spec_index()])@.len() + 1,
            (final(self).code@[part.spec_index()])@.last()@ == code@,
            forall|m: int|
                0 <= m < (old(self).code@[part.spec_index()])@.len()
                    ==> (#[trigger] (final(self).code@[part.spec_index()])@[m])
                    == (old(self).code@[part.spec_index()])@[m],
            forall|k: int|
                0 <= k < 99 && k != part.spec_index() ==> #[trigger] final(self).code@[k]
                    == old(self).code@[k],
    {
        let idx = part.index();
        let mut bucket = self.code.remove(idx);
        bucket.push(String::from_str(code));
        self.code.insert(idx, bucket);
        proof {
            assert forall|k: int| 0 <= k < 99 && k != part.spec_index() implies #[trigger] final(self).code@[k] == old(self).code@[k] by {
                assert(final(self).code@ == old(self).code@.remove(part.spec_index()).insert(
                    part.spec_index(),
                    final(self).code@[part.spec_index()],
                ));
            }
        }
    }

    /// Records one more `use` statement of the generated code.
    pub fn usetype(&mut self, type_: &str)
        ensures
            final(self).code == old(self).code,
            final(self).usestatements@.len() == old(self).usestatements@.len() + 1,
            forall|m: int|
                0 <= m < old(self).usestatements@.len() ==> #[trigger] final(self).usestatements@[m]
                    == old(self).usestatements@[m],
            final(self).usestatements@.last()@ == "\nuse "@ + type_@ + ";"@,
    {
        let mut s = String::from_str("\nuse ");
        s.append(type_);
        s.append(";");
        self.usestatements.push(s);
    }

    /// Empties the function into one list of source fragments: the `use`
    /// statements, the function header, every bucket's fragments in
    /// position order, and the closing brace.
    pub fn drain(&mut self) -> (r: Vec<String>)
        requires
            old(self).wf(),
        ensures
            final(self).wf(),
            final(self).usestatements@.len() == 0,
            forall|k: int| 0 <= k < 99 ==> (#[trigger] final(self).code@[k])@.len() == 0,
            strings_views(r@) == strings_views(old(self).usestatements@) + seq![
                FUNCTION_HEADER@,
            ] + buckets_views(old(self).code@) + seq![FUNCTION_FOOTER@],
    {
        let ghost old_uses = self.usestatements@;
        let ghost old_code = self.code@;
        let mut combined: Vec<String> = Vec::new();
        combined.append(&mut self.usestatements);
        combined.push(String::from_str(FUNCTION_HEADER));
        proof {
            assert(strings_views(combined@) =~= strings_views(old_uses) + seq![FUNCTION_HEADER@]);
            assert(old_code.take(0) =~= Seq::<Vec<String>>::empty());
            assert(strings_views(combined@) =~= strings_views(old_uses) + seq![FUNCTION_HEADER@]
                + buckets_views(old_code.take(0)));
        }
        let mut newcode: Vec<Vec<String>> = Vec::new();
        for i in 0..99usize
            invariant
                old_code.len() == 99,
                self.usestatements@.len() == 0,
                self.code@.len() == 99 - i,
                self.code@ == old_code.skip(i as int),
                newcode@.len() == i,
                forall|k: int| 0 <= k < i ==> (#[trigger] newcode@[k])@.len() == 0,
                strings_views(combined@) == strings_views(old_uses) + seq![FUNCTION_HEADER@]
                    + buckets_views(old_code.take(i as int)),
        {
            let mut bucket = self.code.remove(0);
            proof {
                assert(old_code.skip(i as int)[0] == old_code[i as int]);
                assert(old_code.skip(i as int).remove(0) =~= old_code.skip(i + 1));
            }
            let ghost before = combined@;
            combined.append(&mut bucket);
            newcode.push(bucket);
            proof {
                assert(strings_views(combined@) =~= strings_views(before) + strings_views(
                    (old_code[i as int])@,
                ));
                lemma_buckets_views_take_step(old_code, i as int);
                assert(strings_views(combined@) =~= strings_views(old_uses) + seq![
                    FUNCTION_HEADER@,
                ] + buckets_views(old_code.take(i + 1)));
            }
        }
        combined.push(String::from_str(FUNCTION_FOOTER));
        self.code = newcode;
        proof {
            assert(old_code.take(99) =~= old_code);
            assert(strings_views(combined@) =~= strings_views(old_uses) + seq![FUNCTION_HEADER@]
                + buckets_views(old_code) + seq![FUNCTION_FOOTER@]);
        }
        combined
    }
}

proof fn lemma_buckets_views_take_step(code: Seq<Vec<String>>, i: int)
    requires
        0 <= i < code.len(),
    ensures
        buckets_views(code.take(i + 1)) == buckets_views(code.take(i)) + strings_views(
            (code[i])@,
        ),
{
    crate::seq_util::lemma_concat_map_take_step(code, |b: Vec<String>| strings_views(b@), i);
}

/// The top-level build configuration a user assembles in a build script.
pub struct BuilderConfig {
    pub mcu_class: McuClass,
    pub mcu_type: McuType,
    pub target: Target,
    pub cargo_config: bool,
    pub user_startup_function: Option<String>,
    pub init_function: Option<InitFunction>,
    pub src_generated_rs: Vec<String>,
    pub called_mcu: bool,
    pub executed: bool,
}

impl BuilderConfig {
    /// The bucket invariant of the held initialization function, if any.
    pub open spec fn wf(&self) -> bool {
        match self.init_function {
            Some(f) => f.wf(),
            None => true,
        }
    }

    /// A fresh configuration for the given microcontroller, with the
    /// default initialization function and an initial generated-source
    /// fragment.
    pub fn new(mcu_class: McuClass, mcu_type: McuType) -> (r: BuilderConfig)
        ensures
            r.wf(),
            r.mcu_class == mcu_class,
            r.mcu_type == mcu_type,
            r.target is Thumbv7em,
            r.cargo_config,
            r.user_startup_function is None,
            r.init_function is Some,
            r.init_function->0.is_default(),
            r.src_generated_rs@.len() == 1,
            r.src_generated_rs@[0]@ == "#![allow(dead_code)]\n"@,
            !r.called_mcu,
            !r.executed,
    {
        let mut src_generated_rs: Vec<String> = Vec::new();
        src_generated_rs.push(String::from_str("#![allow(dead_code)]\n"));
        BuilderConfig {
            mcu_class,
            mcu_type,
            target: k20::get_target(),
            cargo_config: true,
            user_startup_function: None,
            init_function: Some(InitFunction::default()),
            src_generated_rs,
            called_mcu: false,
            executed: false,
        }
    }

    pub fn get_mcu_class(&self) -> (r: McuClass)
        ensures
            r == self.mcu_class,
    {
        self.mcu_class
    }

    pub fn get_mcu_type(&self) -> (r: McuType)
        ensures
            r == self.mcu_type,
    {
        self.mcu_type
    }

    pub fn get_target(&self) -> (r: Target)
        ensures
            r == self.target,
    {
        self.target
    }

    /// Drops the cargo configuration from what `execute` writes.
    pub fn skip_adding_cargo_config(self) -> (r: BuilderConfig)
        ensures
            r == (BuilderConfig { cargo_config: false, ..self }),
    {
        BuilderConfig { cargo_config: false, ..self }
    }

    /// Requests a generated reset entry point that calls the generated
    /// initialization routine and then the given user function.
    pub fn call_user_startup_function(self, mod_and_name: &str) -> (r: BuilderConfig)
        ensures
            r.user_startup_function is Some,
            r.user_startup_function->0@ == mod_and_name@,
            r == (BuilderConfig { user_startup_function: r.user_startup_function, ..self }),
    {
        BuilderConfig {
            user_startup_function: Some(String::from_str(mod_and_name)),
            ..self
        }
    }

    /// Moves on to the microcontroller-specific configuration.
    pub fn mcu(self) -> (r: McuSpecificConfig)
        requires
            self.mcu_type is Mk20dx256vlh7,
        ensures
            r.base_config == (BuilderConfig { called_mcu: true, ..self }),
            crate::k20::types::spec_is_mk20dx256vlh7_params(r.mcu_parameters),
            r.memory_config.eeprom_size.0 == 0,
            r.memory_config.eeprom_split is Unsupported,
            r.memory_config.eeprom_backup_size.0 == 0,
            r.memory_config.usbdescriptortable_size.0 == 0,
            r.usb is None,
            r.linker_script,
    {
        let with_flag = BuilderConfig { called_mcu: true, ..self };
        McuSpecificConfig::new(with_flag)
    }

    /// Appends a fragment to the generated source file.
    pub fn add_src(&mut self, src: String)
        ensures
            *final(self) == (BuilderConfig {
                src_generated_rs: final(self).src_generated_rs,
                ..*old(self)
            }),
            final(self).src_generated_rs@ == old(self).src_generated_rs@.push(src),
    {
        self.src_generated_rs.push(src);
    }

    /// Appends a code fragment to the initialization function, if one is
    /// generated.
    pub fn add_to_init(&mut self, part: InitPart, code: &str)
        requires
            old(self).wf(),
        ensures
            final(self).wf(),
            *final(self) == (BuilderConfig { init_function: final(self).init_function, ..*old(self) }),
            match old(self).init_function {
                None => final(self).init_function is None,
                Some(f) => {
                    &&& final(self).init_function is Some
                    &&& {
                        let nf = final(self).init_function->0;
                        &&& nf.usestatements == f.usestatements
                        &&& nf.code@.len() == 99
                        &&& (nf.code@[part.spec_index()])@.len() == (f.code@[part.spec_index()])@.len() + 1
                        &&& (nf.code@[part.spec_index()])@.last()@ == code@
                        &&& forall|m: int|
                            0 <= m < (f.code@[part.spec_index()])@.len()
                                ==> (#[trigger] (nf.code@[part.spec_index()])@[m]) == (f.code@[part.spec_index()])@[m]
                        &&& forall|k: int|
                            0 <= k < 99 && k != part.spec_index() ==> #[trigger] nf.code@[k]
                                == f.code@[k]
                    }
                },
            },
    {
        match &mut self.init_function {
            Some(init_function) => {
                init_function.add(part, code);
            },
            None => {},
        }
    }

    /// Records a `use` statement of the initialization function, if one is
    /// generated.
    pub fn usetype_in_init(&mut self, code: &str)
        requires
            old(self).wf(),
        ensures
            final(self).wf(),
            *final(self) == (BuilderConfig { init_function: final(self).init_function, ..*old(self) }),
            match old(self).init_function {
                None => final(self).init_function is None,
                Some(f) => {
                    &&& final(self).init_function is Some
                    &&& {
                        let nf = final(self).init_function->0;
                        &&& nf.code == f.code
                        &&& nf.usestatements@.len() == f.usestatements@.len() + 1
                        &&& forall|m: int|
                            0 <= m < f.usestatements@.len() ==> #[trigger] nf.usestatements@[m]
                                == f.usestatements@[m]
                        &&& nf.usestatements@.last()@ == "\nuse "@ + code@ + ";"@
                    }
                },
            },
    {
        match &mut self.init_function {
            Some(init_function) => {
                init_function.usetype(code);
            },
            None => {},
        }
    }
}

} // verus!
