use crate::api::enums::compression_preference::CompressionPreference;
use crate::api::enums::solid_preference::SolidPreference;
use crate::api::filedata::input::input_data_source::InputDataSource;
use crate::api::traits::can_provide_input_data::CanProvideInputData;
use crate::api::traits::has_compression_preference::HasCompressionPreference;
use crate::api::traits::has_file_size::HasFileSize;
use crate::api::traits::has_relative_path::HasRelativePath;
use crate::api::traits::has_solid_type::HasSolidType;
use vstd::prelude::*;
use vstd::string::StringSliceAdditionalSpecFns;

verus! {

/// A file that will be packed into an Nx archive.
pub struct PackerFile<'a> {
    /// Relative path within the archive.
    relative_path: String,
    /// Size of the file in bytes.
    file_size: u64,
    /// Where the file's contents come from.
    data_provider: InputDataSource<'a>,
    /// How this file should be compressed.
    compression_preference: CompressionPreference,
    /// Whether this file should be in a SOLID block.
    solid_preference: SolidPreference,
}

impl<'a> PackerFile<'a> {
    /// The path of the file within the archive.
    pub closed spec fn spec_path(&self) -> Seq<char> {
        self.relative_path@
    }

    /// Creates a file with no compression preference and the default SOLID preference.
    ///
    /// # Arguments
    ///
    /// * `relative_path` - Path the file should have within the archive
    /// * `file_size` - Size of the file in bytes
    /// * `provider` - Where the file's contents come from
    pub fn new(relative_path: String, file_size: u64, provider: InputDataSource<'a>) -> (r: PackerFile<'a>)
        ensures
            r.spec_path() == relative_path@,
            r.spec_file_size() == file_size,
            r.spec_input_data() == provider,
            r.spec_compression_preference() == CompressionPreference::NoPreference,
            r.spec_solid_type() == SolidPreference::Default,
    {
        PackerFile {
            relative_path,
            file_size,
            data_provider: provider,
            compression_preference: CompressionPreference::NoPreference,
            solid_preference: SolidPreference::Default,
        }
    }

    /// Sets the compression preference for this file.
    pub fn with_compression(self, preference: CompressionPreference) -> (r: PackerFile<'a>)
        ensures
            r.spec_path() == self.spec_path(),
            r.spec_file_size() == self.spec_file_size(),
            r.spec_input_data() == self.spec_input_data(),
            r.spec_compression_preference() == preference,
            r.spec_solid_type() == self.spec_solid_type(),
    {
        let mut file = self;
        file.compression_preference = preference;
        file
    }

    /// Sets the SOLID block preference for this file.
    pub fn with_solid(self, preference: SolidPreference) -> (r: PackerFile<'a>)
        ensures
            r.spec_path() == self.spec_path(),
            r.spec_file_size() == self.spec_file_size(),
            r.spec_input_data() == self.spec_input_data(),
            r.spec_compression_preference() == self.spec_compression_preference(),
            r.spec_solid_type() == preference,
    {
        let mut file = self;
        file.solid_preference = preference;
        file
    }
}

impl<'a> HasFileSize for PackerFile<'a> {
    closed spec fn spec_file_size(&self) -> u64 {
        self.file_size
    }

    fn file_size(&self) -> (r: u64) {
        self.file_size
    }
}

impl<'a> HasRelativePath for PackerFile<'a> {
    closed spec fn spec_relative_path(&self) -> Seq<u8> {
        vstd::utf8::encode_utf8(self.relative_path@)
    }

    fn relative_path(&self) -> (r: &str) {
        self.relative_path.as_str()
    }
}

impl<'a> HasCompressionPreference for PackerFile<'a> {
    closed spec fn spec_compression_preference(&self) -> CompressionPreference {
        self.compression_preference
    }

    fn compression_preference(&self) -> (r: CompressionPreference) {
        self.compression_preference
    }
}

impl<'a> HasSolidType for PackerFile<'a> {
    closed spec fn spec_solid_type(&self) -> SolidPreference {
        self.solid_preference
    }

    fn solid_type(&self) -> (r: SolidPreference) {
        self.solid_preference
    }
}

impl<'a> CanProvideInputData<'a> for PackerFile<'a> {
    closed spec fn spec_input_data(&self) -> InputDataSource<'a> {
        self.data_provider
    }

    fn input_data_provider(&self) -> (r: &InputDataSource<'a>) {
        &self.data_provider
    }
}

} // verus!
