use crate::api::enums::compression_preference::CompressionPreference;
use crate::api::enums::solid_preference::SolidPreference;
use crate::api::filedata::input::input_data_source::InputDataSource;
use crate::api::packing::packer_file::PackerFile;
use crate::api::packing::packing_settings::PackingSettings;
use crate::api::traits::can_provide_input_data::CanProvideInputData;
use crate::api::traits::has_compression_preference::HasCompressionPreference;
use crate::api::traits::has_file_size::HasFileSize;
use crate::api::traits::has_solid_type::HasSolidType;
use vstd::prelude::*;

verus! {

/// Builder for Nx archives: collects the files to pack and the settings to pack them
/// with (block and chunk sizes, compression and deduplication).
///
/// The sizes are taken as given; [`PackingSettings::sanitize`] brings them into range
/// before packing.
pub struct NxPackerBuilder<'a> {
    /// Settings for the packer.
    pub settings: PackingSettings,
    /// The files to be included in the archive.
    pub files: Vec<PackerFile<'a>>,
}

/// Parameters used for adding a file to the archive.
#[derive(Debug, Clone)]
pub struct AddFileParams {
    /// Relative path of the file inside the archive.
    pub relative_path: String,
    /// Preferred algorithm to compress the item with; only honored with
    /// [`SolidPreference::NoSolid`]. Without a preference, the archive's default is used.
    pub compression_preference: CompressionPreference,
    /// Whether the file should be packed into a SOLID block or on its own.
    pub solid_type: SolidPreference,
}

impl AddFileParams {
    /// Parameters with the given path, no compression preference and the default SOLID
    /// preference.
    pub fn new(relative_path: String) -> (r: AddFileParams)
        ensures
            r.relative_path@ == relative_path@,
            r.compression_preference == CompressionPreference::NoPreference,
            r.solid_type == SolidPreference::Default,
    {
        AddFileParams {
            relative_path,
            compression_preference: CompressionPreference::NoPreference,
            solid_type: SolidPreference::Default,
        }
    }

    /// Parameters with every field given.
    pub fn with_options(relative_path: String, compression_preference: CompressionPreference, solid_type: SolidPreference) -> (r: AddFileParams)
        ensures
            r.relative_path@ == relative_path@,
            r.compression_preference == compression_preference,
            r.solid_type == solid_type,
    {
        AddFileParams { relative_path, compression_preference, solid_type }
    }
}

/// `files` is `before` with one file appended, whose path, size, source and preferences
/// are those given.
pub open spec fn appended_file<'a>(
    before: Seq<PackerFile<'a>>,
    files: Seq<PackerFile<'a>>,
    options: AddFileParams,
    file_size: u64,
    source: InputDataSource<'a>,
) -> bool {
    &&& files.len() == before.len() + 1
    &&& files.drop_last() == before
    &&& files.last().spec_path() == options.relative_path@
    &&& files.last().spec_file_size() == file_size
    &&& files.last().spec_input_data() == source
    &&& files.last().spec_compression_preference() == options.compression_preference
    &&& files.last().spec_solid_type() == options.solid_type
}

impl<'a> NxPackerBuilder<'a> {
    /// A builder with no files and the default settings (see [`PackingSettings::new`]),
    /// for a machine that allows `max_num_threads` threads.
    pub fn new(max_num_threads: u32) -> (r: NxPackerBuilder<'a>)
        ensures
            r.settings == PackingSettings::spec_new(max_num_threads),
            r.files@.len() == 0,
    {
        NxPackerBuilder { settings: PackingSettings::new(max_num_threads), files: Vec::new() }
    }

    /// A builder with no files and the given settings.
    pub fn with_settings(settings: PackingSettings) -> (r: NxPackerBuilder<'a>)
        ensures
            r.settings == settings,
            r.files@.len() == 0,
    {
        NxPackerBuilder { settings, files: Vec::new() }
    }

    /// Appends a file with the given options.
    fn push_file(&mut self, source: InputDataSource<'a>, file_size: u64, options: AddFileParams)
        ensures
            final(self).settings == old(self).settings,
            appended_file(old(self).files@, final(self).files@, options, file_size, source),
    {
        let AddFileParams { relative_path, compression_preference, solid_type } = options;
        let file = PackerFile::new(relative_path, file_size, source).with_compression(compression_preference).with_solid(solid_type);
        self.files.push(file);
        assert(self.files@.drop_last() =~= old(self).files@);
    }

    /// Adds a file whose bytes are borrowed from the caller.
    pub fn add_file_from_byte_slice(&mut self, data: &'a [u8], options: AddFileParams) -> (r: &mut NxPackerBuilder<'a>)
        ensures
            r.settings == old(self).settings,
            appended_file(old(self).files@, r.files@, options, data@.len() as u64, InputDataSource::Slice(data)),
            *final(self) == *final(r),
    {
        let len = data.len() as u64;
        self.push_file(InputDataSource::Slice(data), len, options);
        self
    }

    /// Adds a file whose bytes are handed over to the packer.
    pub fn add_file_from_boxed_slice(&mut self, data: Box<[u8]>, options: AddFileParams) -> (r: &mut NxPackerBuilder<'a>)
        ensures
            r.settings == old(self).settings,
            appended_file(old(self).files@, r.files@, options, data@.len() as u64, InputDataSource::Boxed(data)),
            *final(self) == *final(r),
    {
        let len = data.len() as u64;
        self.push_file(InputDataSource::Boxed(data), len, options);
        self
    }

    /// Adds a file of `length` bytes read from the caller's seekable stream number
    /// `stream`, from its current position.
    pub fn add_file_from_stream(&mut self, stream: usize, length: u64, options: AddFileParams) -> (r: &mut NxPackerBuilder<'a>)
        ensures
            r.settings == old(self).settings,
            appended_file(old(self).files@, r.files@, options, length, InputDataSource::Stream(stream)),
            *final(self) == *final(r),
    {
        self.push_file(InputDataSource::Stream(stream), length, options);
        self
    }

    /// Adds a file on disk at `file_path`, of `file_size` bytes, read when packing.
    pub fn add_file(&mut self, file_path: String, file_size: u64, options: AddFileParams) -> (r: &mut NxPackerBuilder<'a>)
        ensures
            r.settings == old(self).settings,
            appended_file(old(self).files@, r.files@, options, file_size, InputDataSource::FilePath(file_path)),
            *final(self) == *final(r),
    {
        self.push_file(InputDataSource::FilePath(file_path), file_size, options);
        self
    }

    /// Sets the size of SOLID blocks (brought into range when the settings are
    /// sanitized).
    pub fn with_block_size(self, block_size: u32) -> (r: NxPackerBuilder<'a>)
        ensures
            r.settings == (PackingSettings { block_size, ..self.settings }),
            r.files == self.files,
    {
        let mut builder = self;
        builder.settings.block_size = block_size;
        builder
    }

    /// Sets the size of chunks of large files (brought into range when the settings are
    /// sanitized).
    pub fn with_chunk_size(self, chunk_size: u32) -> (r: NxPackerBuilder<'a>)
        ensures
            r.settings == (PackingSettings { chunk_size, ..self.settings }),
            r.files == self.files,
    {
        let mut builder = self;
        builder.settings.chunk_size = chunk_size;
        builder
    }

    /// Configures deduplication of chunks of large files.
    pub fn with_chunked_deduplication(self, enable: bool) -> (r: NxPackerBuilder<'a>)
        ensures
            r.settings == (PackingSettings { enable_chunked_deduplication: enable, ..self.settings }),
            r.files == self.files,
    {
        let mut builder = self;
        builder.settings.enable_chunked_deduplication = enable;
        builder
    }

    /// Configures deduplication of files in SOLID blocks.
    pub fn with_solid_deduplication(self, enable: bool) -> (r: NxPackerBuilder<'a>)
        ensures
            r.settings == (PackingSettings { enable_solid_deduplication: enable, ..self.settings }),
            r.files == self.files,
    {
        let mut builder = self;
        builder.settings.enable_solid_deduplication = enable;
        builder
    }
}

} // verus!
