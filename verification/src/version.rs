//! The version dispatcher and the instruction set.
//!
//! A version byte resolves to the handler for that protocol revision — only
//! (1, 0) is registered — and the handler continues the decode, mapping the
//! instruction code to a tagged variant: 0 is GET, 1 is LIST, everything else
//! is reserved and fails.

use vstd::prelude::*;
use crate::errors::NftpError;
use crate::parser::{
    istruction_recognition, path_recognition, spec_istruction_recognition, spec_path_recognition,
};
use crate::response::{spec_header_bytes, ResponseHeader};
use crate::{INSTRUCTION_GET, INSTRUCTION_LIST, RC_OK, VERSION_BYTE_1_0};

verus! {

/// The decode and dispatch logic of protocol revision 1.0.
pub struct Version1_0;

/// The closed set of protocol revisions a version byte can resolve to.
pub enum VersionHandler {
    V1_0(Version1_0),
}

/// The GET instruction: retrieve the one file its path list names.
pub struct Get {
    pub paths: Vec<Vec<u8>>,
}

/// The LIST instruction: serialize the tree under the root directory.
pub struct List;

/// A decoded instruction, as a value: the fields a request carries.
pub enum SpecInstruction {
    Get(Seq<Seq<u8>>),
    List,
}

/// A decoded instruction with validated arguments.
pub enum Instruction {
    Get(Get),
    List(List),
}

impl View for Get {
    type V = Seq<Seq<u8>>;

    open spec fn view(&self) -> Seq<Seq<u8>> {
        self.paths.deep_view()
    }
}

impl View for Instruction {
    type V = SpecInstruction;

    open spec fn view(&self) -> SpecInstruction {
        match self {
            Instruction::Get(g) => SpecInstruction::Get(g@),
            Instruction::List(_) => SpecInstruction::List,
        }
    }
}

/// What revision 1.0 decodes from the bytes after the version byte: the
/// instruction code, then the path list, then the code mapped to its variant.
pub open spec fn spec_parse_v1_0(bytes: Seq<u8>, total: int, acc: int) -> Result<
    SpecInstruction,
    NftpError,
> {
    match spec_istruction_recognition(bytes, total, acc) {
        Err(e) => Err(e),
        Ok((code, acc1, _)) => match spec_path_recognition(bytes, total, acc1) {
            Err(e) => Err(e),
            Ok((paths, _, _)) => if code == INSTRUCTION_GET {
                Ok(SpecInstruction::Get(paths))
            } else if code == INSTRUCTION_LIST {
                Ok(SpecInstruction::List)
            } else {
                Err(NftpError::UnknownInstruction)
            },
        },
    }
}

impl Version1_0 {
    /// Continues the decode for revision 1.0: reads the instruction byte and
    /// the path list, and maps code 0 to GET and 1 to LIST; every other code
    /// is reserved and fails `UnknownInstruction`.
    pub fn parse(&self, input_bytes: &Vec<u8>, total_len: usize, acc_len: &mut usize, index: &mut usize) -> (r: Result<
        Instruction,
        NftpError,
    >)
        requires
            total_len <= input_bytes@.len(),
        ensures
            match spec_parse_v1_0(input_bytes@, total_len as int, *old(acc_len) as int) {
                Ok(si) => r matches Ok(i) && i@ == si,
                Err(e) => r == Err::<Instruction, NftpError>(e),
            },
    {
        let istruction = match istruction_recognition(input_bytes, total_len, acc_len, index) {
            Ok(c) => c,
            Err(e) => {
                return Err(e);
            },
        };
        let paths = match path_recognition(input_bytes, total_len, acc_len, index) {
            Ok(p) => p,
            Err(e) => {
                return Err(e);
            },
        };
        if istruction == INSTRUCTION_GET {
            Ok(Instruction::Get(Get { paths }))
        } else if istruction == INSTRUCTION_LIST {
            Ok(Instruction::List(List))
        } else {
            Err(NftpError::UnknownInstruction)
        }
    }

    /// The version byte this handler serves: major 1, minor 0.
    pub fn get_version(&self) -> (v: u8)
        ensures
            v == VERSION_BYTE_1_0,
    {
        VERSION_BYTE_1_0
    }
}

impl VersionHandler {
    /// Continues the decode with the logic of the resolved revision.
    pub fn parse(&self, input_bytes: &Vec<u8>, total_len: usize, acc_len: &mut usize, index: &mut usize) -> (r: Result<
        Instruction,
        NftpError,
    >)
        requires
            total_len <= input_bytes@.len(),
        ensures
            match spec_parse_v1_0(input_bytes@, total_len as int, *old(acc_len) as int) {
                Ok(si) => r matches Ok(i) && i@ == si,
                Err(e) => r == Err::<Instruction, NftpError>(e),
            },
    {
        match self {
            VersionHandler::V1_0(v) => v.parse(input_bytes, total_len, acc_len, index),
        }
    }

    /// The version byte of the resolved revision.
    pub fn get_version(&self) -> (v: u8)
        ensures
            v == VERSION_BYTE_1_0,
    {
        match self {
            VersionHandler::V1_0(v) => v.get_version(),
        }
    }
}

impl Get {
    /// The wire code of GET.
    pub fn get_istruction_code(&self) -> (c: u8)
        ensures
            c == INSTRUCTION_GET,
    {
        INSTRUCTION_GET
    }

    /// GET is valid only with exactly one path; this yields it, and fails
    /// `InvalidArgument` for zero paths as well as for two or more.
    pub fn single_path(&self) -> (r: Result<&Vec<u8>, NftpError>)
        ensures
            self.paths@.len() == 1 ==> (r matches Ok(p) && p@ == self.paths@[0]@),
            self.paths@.len() != 1 ==> r == Err::<&Vec<u8>, NftpError>(NftpError::InvalidArgument),
    {
        if self.paths.len() != 1 {
            return Err(NftpError::InvalidArgument);
        }
        Ok(&self.paths[0])
    }

    /// Decides the GET response from what the filesystem reported about the
    /// instruction's single path: whether it names a regular file, and that
    /// file's length in bytes.
    ///
    /// With anything other than exactly one path the request fails
    /// `InvalidArgument`; with a path that is not a regular file it fails
    /// `NotFound`; otherwise the response is a success header whose payload
    /// length equals the file's byte length, and the caller writes exactly
    /// that many file bytes after it.
    pub fn response_for_file(&self, is_file: bool, payload_dim: u64) -> (r: Result<
        ResponseHeader,
        NftpError,
    >)
        ensures
            self.paths@.len() != 1 ==> r == Err::<ResponseHeader, NftpError>(
                NftpError::InvalidArgument,
            ),
            self.paths@.len() == 1 && !is_file ==> r == Err::<ResponseHeader, NftpError>(
                NftpError::NotFound,
            ),
            self.paths@.len() == 1 && is_file ==> (r matches Ok(h) && h@ == spec_header_bytes(
                VERSION_BYTE_1_0,
                RC_OK,
                Some(payload_dim),
            ) && h.wf()),
    {
        if self.paths.len() != 1 {
            return Err(NftpError::InvalidArgument);
        }
        if !is_file {
            return Err(NftpError::NotFound);
        }
        let h = ResponseHeader::new(1, 0, RC_OK, Some(payload_dim));
        proof {
            assert(crate::response::spec_version_byte(1, 0) == VERSION_BYTE_1_0) by (bit_vector);
        }
        Ok(h)
    }
}

impl List {
    /// The wire code of LIST.
    pub fn get_istruction_code(&self) -> (c: u8)
        ensures
            c == INSTRUCTION_LIST,
    {
        INSTRUCTION_LIST
    }

    /// Decides the LIST response: a success header whose payload length is
    /// the byte length of the serialized directory tree, which the caller
    /// writes after it.
    pub fn response_for_listing(&self, payload_dim: u64) -> (h: ResponseHeader)
        ensures
            h@ == spec_header_bytes(VERSION_BYTE_1_0, RC_OK, Some(payload_dim)),
            h.wf(),
    {
        let h = ResponseHeader::new(1, 0, RC_OK, Some(payload_dim));
        proof {
            assert(crate::response::spec_version_byte(1, 0) == VERSION_BYTE_1_0) by (bit_vector);
        }
        h
    }
}

impl Instruction {
    /// The wire code of the decoded instruction.
    pub fn get_istruction_code(&self) -> (c: u8)
        ensures
            self@ matches SpecInstruction::Get(_) ==> c == INSTRUCTION_GET,
            self@ is List ==> c == INSTRUCTION_LIST,
    {
        match self {
            Instruction::Get(g) => g.get_istruction_code(),
            Instruction::List(l) => l.get_istruction_code(),
        }
    }
}

} // verus!
