//! The operations on files that keep the disk in line with the store.

use vstd::prelude::*;

verus! {

/// One operation on the files of a store. A file is given by its name
/// within the store's directory of profiles; the active pointer is the one
/// file that records the active profile's name.
#[derive(Debug, Clone, PartialEq, Eq)]
pub enum FileOperation {
    /// Overwrite the active pointer with exactly `name`, no line ending
    /// after it.
    WriteActive { name: String },
    /// Create or overwrite `file` with `contents`.
    WriteFile { file: String, contents: String },
    /// Copy `from` byte for byte to `to`, replacing `to` if it exists.
    CopyFile { from: String, to: String },
    /// Rename `from` to `to`, replacing `to` if it exists.
    RenameFile { from: String, to: String },
    /// Remove `file`.
    RemoveFile { file: String },
}

/// What a `FileOperation` holds.
pub enum FileOperationModel {
    WriteActive { name: Seq<char> },
    WriteFile { file: Seq<char>, contents: Seq<char> },
    CopyFile { from: Seq<char>, to: Seq<char> },
    RenameFile { from: Seq<char>, to: Seq<char> },
    RemoveFile { file: Seq<char> },
}

impl View for FileOperation {
    type V = FileOperationModel;

    open spec fn view(&self) -> FileOperationModel {
        match self {
            FileOperation::WriteActive { name } => FileOperationModel::WriteActive { name: name@ },
            FileOperation::WriteFile { file, contents } => FileOperationModel::WriteFile {
                file: file@,
                contents: contents@,
            },
            FileOperation::CopyFile { from, to } => FileOperationModel::CopyFile {
                from: from@,
                to: to@,
            },
            FileOperation::RenameFile { from, to } => FileOperationModel::RenameFile {
                from: from@,
                to: to@,
            },
            FileOperation::RemoveFile { file } => FileOperationModel::RemoveFile { file: file@ },
        }
    }
}

/// What each operation of `operations` holds.
pub open spec fn operation_models(operations: Seq<FileOperation>) -> Seq<FileOperationModel> {
    operations.map_values(|operation: FileOperation| operation@)
}

} // verus!
